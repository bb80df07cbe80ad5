//! The todo store: the in-memory ordered sequence of task spaces and the
//! operations on it. Every mutating operation says exactly how the new store
//! relates to the old one; the caller persists the rendered text afterwards.

use vstd::prelude::*;
use vstd::string::*;
use crate::model::{
    default_name, default_name_string, spec_passes, Priority, SpecItem, SpecSpace, StatusFilter,
    TodoError, TodoItem, TodoSpace, spaces_view,
};
use crate::parse::{parse_markdown_todos, spec_parse};
use crate::render::{format_todos_as_markdown, spec_format};

verus! {

/// The position of the first space with this name, or `-1` when none has it.
pub open spec fn space_index(spaces: Seq<SpecSpace>, name: Seq<char>) -> int
    decreases spaces.len(),
{
    if spaces.len() == 0 {
        -1
    } else if spaces[0].name == name {
        0
    } else {
        let r = space_index(spaces.skip(1), name);
        if r == -1 {
            -1
        } else {
            r + 1
        }
    }
}

/// `space_index` is `-1` or a valid position whose space bears the name.
pub proof fn lemma_space_index_props(spaces: Seq<SpecSpace>, name: Seq<char>)
    ensures
        -1 <= space_index(spaces, name) < spaces.len(),
        space_index(spaces, name) >= 0 ==> spaces[space_index(spaces, name)].name == name,
    decreases spaces.len(),
{
    if spaces.len() > 0 && spaces[0].name != name {
        lemma_space_index_props(spaces.skip(1), name);
    }
}

/// The first matching position determines `space_index`.
pub proof fn lemma_space_index_first(spaces: Seq<SpecSpace>, name: Seq<char>, j: int)
    requires
        0 <= j < spaces.len(),
        spaces[j].name == name,
        forall|k: int| 0 <= k < j ==> spaces[k].name != name,
    ensures
        space_index(spaces, name) == j,
    decreases j,
{
    if j > 0 {
        assert(spaces[0].name != name);
        lemma_space_index_first(spaces.skip(1), name, j - 1);
    }
}

/// No matching name means `space_index` is `-1`.
pub proof fn lemma_space_index_none(spaces: Seq<SpecSpace>, name: Seq<char>)
    requires
        forall|k: int| 0 <= k < spaces.len() ==> spaces[k].name != name,
    ensures
        space_index(spaces, name) == -1,
    decreases spaces.len(),
{
    if spaces.len() > 0 {
        lemma_space_index_none(spaces.skip(1), name);
    }
}

/// An absent space name resolves to `Default`.
pub open spec fn spec_resolve_name(o: Option<String>) -> Seq<char> {
    match o {
        Some(s) => s@,
        None => default_name(),
    }
}

/// An absent priority resolves to `Medium`.
pub open spec fn spec_resolve_priority(o: Option<Priority>) -> Priority {
    match o {
        Some(p) => p,
        None => Priority::Medium,
    }
}

/// The store after adding a task: appended to the first space of the resolved
/// name, or to a new space appended at the end.
pub open spec fn spec_add(
    spaces: Seq<SpecSpace>,
    item: Seq<char>,
    name: Seq<char>,
    p: Priority,
) -> Seq<SpecSpace> {
    let j = space_index(spaces, name);
    let it = SpecItem { item, status: false, priority: p };
    if j >= 0 {
        spaces.update(j, SpecSpace { name: spaces[j].name, todos: spaces[j].todos.push(it) })
    } else {
        spaces.push(SpecSpace { name, todos: seq![it] })
    }
}

/// The first space of this name, by linear scan.
fn find_space_index(spaces: &Vec<TodoSpace>, name: &String) -> (r: Option<usize>)
    ensures
        r matches Some(j) ==> j < spaces@.len() && space_index(spaces_view(spaces@), name@)
            == j as int,
        r is None ==> space_index(spaces_view(spaces@), name@) == -1,
{
    let ghost views = spaces_view(spaces@);
    let mut i: usize = 0;
    while i < spaces.len()
        invariant
            i <= spaces@.len(),
            views == spaces_view(spaces@),
            forall|k: int| 0 <= k < i ==> views[k].name != name@,
        decreases spaces@.len() - i,
    {
        if spaces[i].name.eq(name) {
            proof {
                assert(views[i as int] == spaces@[i as int]@);
                lemma_space_index_first(views, name@, i as int);
            }
            return Some(i);
        }
        proof {
            assert(views[i as int] == spaces@[i as int]@);
        }
        i += 1;
    }
    proof {
        lemma_space_index_none(views, name@);
    }
    None
}

/// One task of a listing, under its original position in its space.
pub struct TaskEntry {
    pub index: usize,
    pub item: String,
    pub status: bool,
    pub priority: Priority,
}

pub ghost struct SpecEntry {
    pub index: int,
    pub item: Seq<char>,
    pub status: bool,
    pub priority: Priority,
}

impl View for TaskEntry {
    type V = SpecEntry;

    open spec fn view(&self) -> SpecEntry {
        SpecEntry {
            index: self.index as int,
            item: self.item@,
            status: self.status,
            priority: self.priority,
        }
    }
}

/// One space of a listing: its name and the tasks that passed the filter.
pub struct SpaceListing {
    pub name: String,
    pub entries: Vec<TaskEntry>,
}

pub ghost struct SpecListing {
    pub name: Seq<char>,
    pub entries: Seq<SpecEntry>,
}

impl View for SpaceListing {
    type V = SpecListing;

    open spec fn view(&self) -> SpecListing {
        SpecListing { name: self.name@, entries: self.entries@.map_values(|e: TaskEntry| e@) }
    }
}

/// One space's summary: its name and completed/total counts.
pub struct SpaceSummary {
    pub name: String,
    pub completed: usize,
    pub total: usize,
}

pub ghost struct SpecSummary {
    pub name: Seq<char>,
    pub completed: int,
    pub total: int,
}

impl View for SpaceSummary {
    type V = SpecSummary;

    open spec fn view(&self) -> SpecSummary {
        SpecSummary {
            name: self.name@,
            completed: self.completed as int,
            total: self.total as int,
        }
    }
}

/// The tasks of one space that pass the filter, each under its original
/// position.
pub open spec fn spec_entries(todos: Seq<SpecItem>, f: StatusFilter) -> Seq<SpecEntry>
    decreases todos.len(),
{
    if todos.len() == 0 {
        Seq::empty()
    } else {
        let prefix = spec_entries(todos.drop_last(), f);
        let last = todos.last();
        if spec_passes(f, last.status) {
            prefix.push(
                SpecEntry {
                    index: todos.len() - 1,
                    item: last.item,
                    status: last.status,
                    priority: last.priority,
                },
            )
        } else {
            prefix
        }
    }
}

/// The listing of a whole store under a filter.
pub open spec fn spec_listing(spaces: Seq<SpecSpace>, f: StatusFilter) -> Seq<SpecListing> {
    spaces.map_values(|sp: SpecSpace| SpecListing { name: sp.name, entries: spec_entries(sp.todos, f) })
}

/// How many tasks of a space are completed.
pub open spec fn spec_completed_count(todos: Seq<SpecItem>) -> int
    decreases todos.len(),
{
    if todos.len() == 0 {
        0int
    } else {
        spec_completed_count(todos.drop_last()) + if todos.last().status {
            1int
        } else {
            0int
        }
    }
}

/// The summaries of a whole store.
pub open spec fn spec_summaries(spaces: Seq<SpecSpace>) -> Seq<SpecSummary> {
    spaces.map_values(
        |sp: SpecSpace| SpecSummary {
            name: sp.name,
            completed: spec_completed_count(sp.todos),
            total: sp.todos.len() as int,
        },
    )
}

/// The in-memory store: an ordered sequence of task spaces with unique names
/// as far as its own operations create them.
pub struct TodoManager {
    pub current_todo_spaces: Vec<TodoSpace>,
}

impl View for TodoManager {
    type V = Seq<SpecSpace>;

    open spec fn view(&self) -> Seq<SpecSpace> {
        spaces_view(self.current_todo_spaces@)
    }
}

impl TodoManager {
    /// A fresh store: one empty `Default` space.
    pub fn new_store() -> (r: TodoManager)
        ensures
            r@ == seq![SpecSpace { name: default_name(), todos: Seq::<SpecItem>::empty() }],
    {
        let mut spaces: Vec<TodoSpace> = Vec::new();
        spaces.push(TodoSpace { name: default_name_string(), todos: Vec::new() });
        let r = TodoManager { current_todo_spaces: spaces };
        proof {
            assert(r@[0].todos =~= Seq::<SpecItem>::empty());
            assert(r@ =~= seq![SpecSpace { name: default_name(), todos: Seq::<SpecItem>::empty() }]);
        }
        r
    }

    /// The store a loaded text blob denotes.
    pub fn from_content(content: String) -> (r: TodoManager)
        ensures
            r@ == spec_parse(content@),
    {
        TodoManager { current_todo_spaces: parse_markdown_todos(content) }
    }

    /// The full text form of the current state, for the caller to write back.
    pub fn render(&self) -> (r: String)
        ensures
            r@ == spec_format(self@),
    {
        format_todos_as_markdown(&self.current_todo_spaces)
    }

    /// Appends a task to the first space of the resolved name, creating the
    /// space at the end when none has it. Never fails.
    pub fn add_todo(
        &mut self,
        todo_item: String,
        space_name: Option<String>,
        priority: Option<Priority>,
    )
        ensures
            final(self)@ == spec_add(
                old(self)@,
                todo_item@,
                spec_resolve_name(space_name),
                spec_resolve_priority(priority),
            ),
    {
        let name = match space_name {
            Some(s) => s,
            None => default_name_string(),
        };
        let p = match priority {
            Some(p2) => p2,
            None => Priority::Medium,
        };
        let item = TodoItem { item: todo_item, status: false, priority: p };
        let ghost old_views = self@;
        match find_space_index(&self.current_todo_spaces, &name) {
            Some(j) => {
                proof {
                    lemma_space_index_props(old_views, name@);
                }
                let mut sp = self.current_todo_spaces.remove(j);
                let ghost sp_old = sp@;
                sp.todos.push(item);
                proof {
                    assert(sp@.todos =~= sp_old.todos.push(item@));
                }
                self.current_todo_spaces.insert(j, sp);
                proof {
                    assert(self@ =~= old_views.update(
                        j as int,
                        SpecSpace {
                            name: old_views[j as int].name,
                            todos: old_views[j as int].todos.push(item@),
                        },
                    ));
                }
            },
            None => {
                let mut todos: Vec<TodoItem> = Vec::new();
                todos.push(item);
                let sp = TodoSpace { name, todos };
                proof {
                    assert(sp@.todos =~= seq![item@]);
                }
                self.current_todo_spaces.push(sp);
                proof {
                    assert(self@ =~= old_views.push(sp@));
                }
            },
        }
    }

    /// Flips the completion status of the task at `index` in the resolved
    /// space; on failure the store is unchanged.
    pub fn toggle_todo(&mut self, index: usize, space_name: Option<String>) -> (r: Result<
        (),
        TodoError,
    >)
        ensures
            ({
                let spaces = old(self)@;
                let name = spec_resolve_name(space_name);
                let j = space_index(spaces, name);
                &&& (r is Ok <==> j >= 0 && (index as int) < spaces[j].todos.len())
                &&& (j == -1 ==> r == Err::<(), TodoError>(TodoError::SpaceNotFound) && final(self)@ == spaces)
                &&& (j >= 0 && (index as int) >= spaces[j].todos.len() ==> r == Err::<
                    (),
                    TodoError,
                >(TodoError::IndexOutOfRange) && final(self)@ == spaces)
                &&& (r is Ok ==> final(self)@ == spaces.update(
                    j,
                    SpecSpace {
                        name: spaces[j].name,
                        todos: spaces[j].todos.update(
                            index as int,
                            SpecItem {
                                item: spaces[j].todos[index as int].item,
                                status: !spaces[j].todos[index as int].status,
                                priority: spaces[j].todos[index as int].priority,
                            },
                        ),
                    },
                ))
            }),
    {
        let name = match space_name {
            Some(s) => s,
            None => default_name_string(),
        };
        let ghost old_views = self@;
        match find_space_index(&self.current_todo_spaces, &name) {
            None => Err(TodoError::SpaceNotFound),
            Some(j) => {
                proof {
                    lemma_space_index_props(old_views, name@);
                }
                if index >= self.current_todo_spaces[j].todos.len() {
                    Err(TodoError::IndexOutOfRange)
                } else {
                    let mut sp = self.current_todo_spaces.remove(j);
                    let ghost sp_old = sp@;
                    let mut it = sp.todos.remove(index);
                    it.status = !it.status;
                    sp.todos.insert(index, it);
                    proof {
                        assert(sp@.todos =~= sp_old.todos.update(
                            index as int,
                            SpecItem {
                                item: sp_old.todos[index as int].item,
                                status: !sp_old.todos[index as int].status,
                                priority: sp_old.todos[index as int].priority,
                            },
                        ));
                    }
                    self.current_todo_spaces.insert(j, sp);
                    proof {
                        assert(self@ =~= old_views.update(
                            j as int,
                            SpecSpace { name: old_views[j as int].name, todos: sp@.todos },
                        ));
                    }
                    Ok(())
                }
            },
        }
    }

    /// Removes the task at `index` in the resolved space, shifting the
    /// following tasks down by one; on failure the store is unchanged.
    pub fn delete_todo(&mut self, index: usize, space_name: Option<String>) -> (r: Result<
        (),
        TodoError,
    >)
        ensures
            ({
                let spaces = old(self)@;
                let name = spec_resolve_name(space_name);
                let j = space_index(spaces, name);
                &&& (r is Ok <==> j >= 0 && (index as int) < spaces[j].todos.len())
                &&& (j == -1 ==> r == Err::<(), TodoError>(TodoError::SpaceNotFound) && final(self)@ == spaces)
                &&& (j >= 0 && (index as int) >= spaces[j].todos.len() ==> r == Err::<
                    (),
                    TodoError,
                >(TodoError::IndexOutOfRange) && final(self)@ == spaces)
                &&& (r is Ok ==> final(self)@ == spaces.update(
                    j,
                    SpecSpace {
                        name: spaces[j].name,
                        todos: spaces[j].todos.remove(index as int),
                    },
                ))
            }),
    {
        let name = match space_name {
            Some(s) => s,
            None => default_name_string(),
        };
        let ghost old_views = self@;
        match find_space_index(&self.current_todo_spaces, &name) {
            None => Err(TodoError::SpaceNotFound),
            Some(j) => {
                proof {
                    lemma_space_index_props(old_views, name@);
                }
                if index >= self.current_todo_spaces[j].todos.len() {
                    Err(TodoError::IndexOutOfRange)
                } else {
                    let mut sp = self.current_todo_spaces.remove(j);
                    let ghost sp_old = sp@;
                    sp.todos.remove(index);
                    proof {
                        assert(sp@.todos =~= sp_old.todos.remove(index as int));
                    }
                    self.current_todo_spaces.insert(j, sp);
                    proof {
                        assert(self@ =~= old_views.update(
                            j as int,
                            SpecSpace { name: old_views[j as int].name, todos: sp@.todos },
                        ));
                    }
                    Ok(())
                }
            },
        }
    }

    /// The tasks passing the filter, per space and under their original
    /// positions. Read-only: the result is a function of the current state.
    pub fn list_todos(&self, filter: StatusFilter) -> (r: Vec<SpaceListing>)
        ensures
            r@.map_values(|l: SpaceListing| l@) == spec_listing(self@, filter),
    {
        let mut out: Vec<SpaceListing> = Vec::new();
        let ghost views = self@;
        proof {
            assert(out@.map_values(|l: SpaceListing| l@) =~= spec_listing(views.take(0), filter));
        }
        let mut i: usize = 0;
        while i < self.current_todo_spaces.len()
            invariant
                i <= self.current_todo_spaces@.len(),
                views == self@,
                out@.map_values(|l: SpaceListing| l@) == spec_listing(
                    views.take(i as int),
                    filter,
                ),
            decreases self.current_todo_spaces@.len() - i,
        {
            let space = &self.current_todo_spaces[i];
            proof {
                assert(views[i as int] == space@);
            }
            let mut entries: Vec<TaskEntry> = Vec::new();
            proof {
                assert(entries@.map_values(|e: TaskEntry| e@) =~= spec_entries(
                    space@.todos.take(0),
                    filter,
                ));
            }
            let mut j: usize = 0;
            while j < space.todos.len()
                invariant
                    j <= space.todos@.len(),
                    entries@.map_values(|e: TaskEntry| e@) == spec_entries(
                        space@.todos.take(j as int),
                        filter,
                    ),
                decreases space.todos@.len() - j,
            {
                let todo = &space.todos[j];
                let passes = match filter {
                    StatusFilter::All => true,
                    StatusFilter::Completed => todo.status,
                    StatusFilter::Pending => !todo.status,
                };
                let ghost prev = entries@.map_values(|e: TaskEntry| e@);
                if passes {
                    entries.push(
                        TaskEntry {
                            index: j,
                            item: todo.item.clone(),
                            status: todo.status,
                            priority: todo.priority,
                        },
                    );
                }
                proof {
                    let t = space@.todos.take(j + 1);
                    assert(t.drop_last() =~= space@.todos.take(j as int));
                    assert(t.last() == space@.todos[j as int]);
                    assert(space@.todos[j as int] == todo@);
                    if passes {
                        assert(entries@.map_values(|e: TaskEntry| e@) =~= prev.push(
                            SpecEntry {
                                index: j as int,
                                item: todo@.item,
                                status: todo@.status,
                                priority: todo@.priority,
                            },
                        ));
                    }
                    assert(entries@.map_values(|e: TaskEntry| e@) =~= spec_entries(t, filter));
                }
                j += 1;
            }
            proof {
                assert(space@.todos.take(space.todos@.len() as int) =~= space@.todos);
            }
            let ghost prev_out = out@.map_values(|l: SpaceListing| l@);
            out.push(SpaceListing { name: space.name.clone(), entries });
            proof {
                assert(out@.map_values(|l: SpaceListing| l@) =~= prev_out.push(
                    SpecListing { name: space@.name, entries: spec_entries(space@.todos, filter) },
                ));
                assert(views.take(i + 1) =~= views.take(i as int).push(views[i as int]));
                assert(out@.map_values(|l: SpaceListing| l@) =~= spec_listing(
                    views.take(i + 1),
                    filter,
                ));
            }
            i += 1;
        }
        proof {
            assert(views.take(self.current_todo_spaces@.len() as int) =~= views);
        }
        out
    }

    /// Each space's name with its completed and total task counts.
    pub fn list_workspaces(&self) -> (r: Vec<SpaceSummary>)
        ensures
            r@.map_values(|s: SpaceSummary| s@) == spec_summaries(self@),
    {
        let mut out: Vec<SpaceSummary> = Vec::new();
        let ghost views = self@;
        proof {
            assert(out@.map_values(|s: SpaceSummary| s@) =~= spec_summaries(views.take(0)));
        }
        let mut i: usize = 0;
        while i < self.current_todo_spaces.len()
            invariant
                i <= self.current_todo_spaces@.len(),
                views == self@,
                out@.map_values(|s: SpaceSummary| s@) == spec_summaries(views.take(i as int)),
            decreases self.current_todo_spaces@.len() - i,
        {
            let space = &self.current_todo_spaces[i];
            proof {
                assert(views[i as int] == space@);
            }
            let mut completed: usize = 0;
            proof {
                assert(space@.todos.take(0) =~= Seq::<SpecItem>::empty());
            }
            let mut j: usize = 0;
            while j < space.todos.len()
                invariant
                    j <= space.todos@.len(),
                    completed as int == spec_completed_count(space@.todos.take(j as int)),
                    completed <= j,
                decreases space.todos@.len() - j,
            {
                let todo = &space.todos[j];
                proof {
                    let t = space@.todos.take(j + 1);
                    assert(t.drop_last() =~= space@.todos.take(j as int));
                    assert(t.last() == space@.todos[j as int]);
                    assert(space@.todos[j as int] == todo@);
                }
                if todo.status {
                    completed += 1;
                }
                j += 1;
            }
            proof {
                assert(space@.todos.take(space.todos@.len() as int) =~= space@.todos);
            }
            let total = space.todos.len();
            let ghost prev_out = out@.map_values(|s: SpaceSummary| s@);
            out.push(SpaceSummary { name: space.name.clone(), completed, total });
            proof {
                assert(out@.map_values(|s: SpaceSummary| s@) =~= prev_out.push(
                    SpecSummary {
                        name: space@.name,
                        completed: spec_completed_count(space@.todos),
                        total: space@.todos.len() as int,
                    },
                ));
                assert(views.take(i + 1) =~= views.take(i as int).push(views[i as int]));
                assert(out@.map_values(|s: SpaceSummary| s@) =~= spec_summaries(views.take(i + 1)));
            }
            i += 1;
        }
        proof {
            assert(views.take(self.current_todo_spaces@.len() as int) =~= views);
        }
        out
    }
}

} // verus!

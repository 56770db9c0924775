//! Walking a directory tree, parents before what is in them.
//!
//! The walk says which item to work on and which directory to list next, and is told
//! how that went. An item that is a leaf is worked on and never listed: a symbolic
//! link is not followed.

use vstd::prelude::*;

verus! {

/// Something in a directory.
#[derive(Debug, PartialEq, Eq)]
pub struct Entry<T> {
    pub item: T,
    /// Whether the walk must not look into it.
    pub leaf: bool,
}

/// What there is to do.
#[derive(Debug, PartialEq, Eq)]
pub enum Task<T> {
    /// Work on the item, then look into it.
    Visit(T),
    /// Work on the item.
    Leaf(T),
    /// Look into the item.
    Enter(T),
    /// Give up: this entry of a directory could not be read.
    Stop(String),
}

/// What was seen when looking into an item.
#[derive(Debug, PartialEq, Eq)]
pub enum Listing<T> {
    /// It is no directory.
    NotDirectory,
    /// The entries of the directory, each read or not.
    Entries(Vec<Result<Entry<T>, String>>),
    /// The directory could not be read.
    Failed(String),
}

/// How the last action went.
#[derive(Debug, PartialEq, Eq)]
pub enum Reply<T> {
    Applied(Result<(), String>),
    Listed(Listing<T>),
}

/// The next action.
#[derive(Debug, PartialEq, Eq)]
pub enum Action<'a, T> {
    /// Work on this item.
    Apply(&'a T),
    /// List this item, if it is a directory.
    List(&'a T),
    /// Nothing: all is done.
    Done,
    /// Nothing: the walk ended with this error.
    Failed(&'a String),
}

/// A walk under way: what there is to do, the next task last; or its end.
#[derive(Debug, PartialEq, Eq)]
pub enum Walk<T> {
    Active(Vec<Task<T>>),
    Done,
    Failed(String),
}

/// A walk with its tasks as a sequence.
pub enum WalkView<T> {
    Active(Seq<Task<T>>),
    Done,
    Failed(String),
}

impl<T> View for Walk<T> {
    type V = WalkView<T>;

    open spec fn view(&self) -> WalkView<T> {
        match self {
            Walk::Active(tasks) => WalkView::Active(tasks@),
            Walk::Done => WalkView::Done,
            Walk::Failed(e) => WalkView::Failed(*e),
        }
    }
}

/// The task for an entry of a directory.
pub open spec fn task_of<T>(entry: Result<Entry<T>, String>) -> Task<T> {
    match entry {
        Ok(e) => if e.leaf {
            Task::Leaf(e.item)
        } else {
            Task::Visit(e.item)
        },
        Err(e) => Task::Stop(e),
    }
}

/// The tasks for the entries of a directory, the first entry's last.
pub open spec fn tasks_of<T>(entries: Seq<Result<Entry<T>, String>>) -> Seq<Task<T>> {
    Seq::new(entries.len(), |i: int| task_of(entries[entries.len() - 1 - i]))
}

/// A walk with these tasks to do: over where there are none, or where the next one is
/// to give up.
pub open spec fn settled<T>(tasks: Seq<Task<T>>) -> WalkView<T> {
    if tasks.len() == 0 {
        WalkView::Done
    } else {
        match tasks.last() {
            Task::Stop(e) => WalkView::Failed(e),
            _ => WalkView::Active(tasks),
        }
    }
}

impl<T> WalkView<T> {
    /// The walk after a reply. A reply that does not answer the action changes nothing.
    pub open spec fn after(self, reply: Reply<T>) -> WalkView<T> {
        match self {
            WalkView::Active(tasks) => {
                let rest = tasks.drop_last();
                match (tasks.last(), reply) {
                    (Task::Visit(item), Reply::Applied(Ok(_))) => WalkView::Active(
                        rest.push(Task::Enter(item)),
                    ),
                    (Task::Visit(_), Reply::Applied(Err(e))) => WalkView::Failed(e),
                    (Task::Leaf(_), Reply::Applied(Ok(_))) => settled(rest),
                    (Task::Leaf(_), Reply::Applied(Err(e))) => WalkView::Failed(e),
                    (Task::Enter(_), Reply::Listed(Listing::NotDirectory)) => settled(rest),
                    (Task::Enter(_), Reply::Listed(Listing::Entries(entries))) => settled(
                        rest + tasks_of(entries@),
                    ),
                    (Task::Enter(_), Reply::Listed(Listing::Failed(e))) => WalkView::Failed(e),
                    _ => self,
                }
            },
            other => other,
        }
    }
}

impl<T> Walk<T> {
    /// Whether there is a next task, other than to give up, where the walk is under way.
    pub open spec fn wf(self) -> bool {
        self matches Walk::Active(tasks) ==> tasks@.len() > 0 && !(tasks@.last() is Stop)
    }

    /// A walk through the tree at `root`.
    pub fn start(root: T) -> (r: Self)
        ensures
            r.wf(),
            r@ == WalkView::Active(seq![Task::Visit(root)]),
    {
        let mut tasks: Vec<Task<T>> = Vec::new();
        tasks.push(Task::Visit(root));
        assert(tasks@ == seq![Task::Visit(root)]);
        Walk::Active(tasks)
    }

    /// The next action.
    pub fn action(&self) -> (r: Action<'_, T>)
        requires
            self.wf(),
        ensures
            match self@ {
                WalkView::Active(tasks) => match tasks.last() {
                    Task::Visit(item) => r matches Action::Apply(x) && *x == item,
                    Task::Leaf(item) => r matches Action::Apply(x) && *x == item,
                    Task::Enter(item) => r matches Action::List(x) && *x == item,
                    Task::Stop(_) => false,
                },
                WalkView::Done => r is Done,
                WalkView::Failed(e) => r matches Action::Failed(x) && *x == e,
            },
    {
        match self {
            Walk::Active(tasks) => {
                let last: usize = tasks.len() - 1;
                match &tasks[last] {
                    Task::Visit(item) => Action::Apply(item),
                    Task::Leaf(item) => Action::Apply(item),
                    Task::Enter(item) => Action::List(item),
                    Task::Stop(e) => Action::Failed(e),
                }
            },
            Walk::Done => Action::Done,
            Walk::Failed(e) => Action::Failed(e),
        }
    }

    fn settle(tasks: Vec<Task<T>>) -> (r: Self)
        ensures
            r.wf(),
            r@ == settled(tasks@),
    {
        let ghost all = tasks@;
        let mut tasks = tasks;
        match tasks.pop() {
            None => Walk::Done,
            Some(Task::Stop(e)) => Walk::Failed(e),
            Some(task) => {
                assert(all == tasks@.push(task));
                tasks.push(task);
                assert(tasks@ == all);
                Walk::Active(tasks)
            },
        }
    }

    /// Goes on after the action has been carried out.
    pub fn next(self, reply: Reply<T>) -> (r: Self)
        requires
            self.wf(),
        ensures
            r.wf(),
            r@ == self@.after(reply),
    {
        let mut tasks = match self {
            Walk::Active(tasks) => tasks,
            Walk::Done => {
                return Walk::Done;
            },
            Walk::Failed(e) => {
                return Walk::Failed(e);
            },
        };
        let ghost all = tasks@;
        let task = match tasks.pop() {
            Some(task) => task,
            None => {
                return Walk::Done;
            },
        };
        let ghost rest = tasks@;
        assert(rest == all.drop_last() && all == rest.push(task));
        match (task, reply) {
            (Task::Visit(item), Reply::Applied(Ok(_))) => {
                tasks.push(Task::Enter(item));
                Walk::Active(tasks)
            },
            (Task::Visit(_), Reply::Applied(Err(e))) => Walk::Failed(e),
            (Task::Leaf(_), Reply::Applied(Ok(_))) => Self::settle(tasks),
            (Task::Leaf(_), Reply::Applied(Err(e))) => Walk::Failed(e),
            (Task::Enter(_), Reply::Listed(Listing::NotDirectory)) => Self::settle(tasks),
            (Task::Enter(_), Reply::Listed(Listing::Entries(entries))) => {
                let mut left = entries;
                let ghost listed = left@;
                while left.len() > 0
                    invariant
                        left@.len() <= listed.len(),
                        left@ == listed.take(left@.len() as int),
                        tasks@ == rest + tasks_of(listed).take(listed.len() - left@.len()),
                    decreases left@.len(),
                {
                    let ghost k = left@.len() as int;
                    match left.pop() {
                        Some(Ok(entry)) => {
                            assert(listed[k - 1] == Ok::<Entry<T>, String>(entry));
                            if entry.leaf {
                                tasks.push(Task::Leaf(entry.item));
                            } else {
                                tasks.push(Task::Visit(entry.item));
                            }
                        },
                        Some(Err(e)) => {
                            assert(listed[k - 1] == Err::<Entry<T>, String>(e));
                            tasks.push(Task::Stop(e));
                        },
                        None => {},
                    }
                    assert(tasks@.last() == task_of(listed[k - 1]));
                    assert(tasks_of(listed)[listed.len() - k] == task_of(listed[k - 1]));
                    assert(tasks@ == rest + tasks_of(listed).take(listed.len() - k + 1));
                    assert(left@ == listed.take(k - 1));
                }
                assert(tasks_of(listed).take(listed.len() as int) == tasks_of(listed));
                Self::settle(tasks)
            },
            (Task::Enter(_), Reply::Listed(Listing::Failed(e))) => Walk::Failed(e),
            (task, _) => {
                tasks.push(task);
                Walk::Active(tasks)
            },
        }
    }
}

// ---------------------------------------------------------------- laws
/// A directory tree: an item, whether it is a leaf, and what is in it.
pub struct Tree<T> {
    pub item: T,
    pub leaf: bool,
    pub children: Seq<Tree<T>>,
}

/// The items of a tree, each directory before what is in it, and nothing below a leaf.
pub open spec fn preorder<T>(tree: Tree<T>) -> Seq<T>
    decreases tree,
{
    if tree.leaf {
        seq![tree.item]
    } else {
        seq![tree.item] + preorder_all(tree.children)
    }
}

/// The items of some trees, one tree after another.
pub open spec fn preorder_all<T>(trees: Seq<Tree<T>>) -> Seq<T>
    decreases trees,
{
    if trees.len() == 0 {
        seq![]
    } else {
        preorder(trees[0]) + preorder_all(trees.drop_first())
    }
}

/// What is to be done to a tree.
pub enum Pending<T> {
    Visit(Tree<T>),
    Enter(Tree<T>),
}

/// The items that doing so works on.
pub open spec fn items_of<T>(pending: Pending<T>) -> Seq<T> {
    match pending {
        Pending::Visit(tree) => preorder(tree),
        Pending::Enter(tree) => preorder_all(tree.children),
    }
}

/// The items that are still to be worked on, where the next thing to do is the last.
pub open spec fn items_left<T>(stack: Seq<Pending<T>>) -> Seq<T>
    decreases stack.len(),
{
    if stack.len() == 0 {
        seq![]
    } else {
        items_of(stack.last()) + items_left(stack.drop_last())
    }
}

/// The task that stands for something to be done to a tree.
pub open spec fn task_for<T>(pending: Pending<T>) -> Task<T> {
    match pending {
        Pending::Visit(tree) => if tree.leaf {
            Task::Leaf(tree.item)
        } else {
            Task::Visit(tree.item)
        },
        Pending::Enter(tree) => Task::Enter(tree.item),
    }
}

/// The tasks that stand for a stack of things to do.
pub open spec fn tasks_for<T>(stack: Seq<Pending<T>>) -> Seq<Task<T>> {
    stack.map_values(|p: Pending<T>| task_for(p))
}

/// To visit each of some trees, the first one last.
pub open spec fn visits<T>(trees: Seq<Tree<T>>) -> Seq<Pending<T>> {
    Seq::new(trees.len(), |i: int| Pending::Visit(trees[trees.len() - 1 - i]))
}

/// What is left to do after the next thing has been done.
pub open spec fn done_one<T>(stack: Seq<Pending<T>>) -> Seq<Pending<T>> {
    let rest = stack.drop_last();
    match stack.last() {
        Pending::Visit(tree) => if tree.leaf {
            rest
        } else {
            rest.push(Pending::Enter(tree))
        },
        Pending::Enter(tree) => rest + visits(tree.children),
    }
}

/// Whether a reply says that the next thing went well, and what is really there.
pub open spec fn truthful<T>(pending: Pending<T>, reply: Reply<T>) -> bool {
    match pending {
        Pending::Visit(_) => reply matches Reply::Applied(outcome) && outcome is Ok,
        Pending::Enter(tree) => reply matches Reply::Listed(listing) && match listing {
            Listing::NotDirectory => tree.children.len() == 0,
            Listing::Entries(entries) => {
                &&& entries@.len() == tree.children.len()
                &&& forall|i: int|
                    0 <= i < entries@.len() ==> #[trigger] entries@[i] == Ok::<Entry<T>, String>(
                        Entry { item: tree.children[i].item, leaf: tree.children[i].leaf },
                    )
            },
            Listing::Failed(_) => false,
        },
    }
}

/// The items that doing the next thing works on.
pub open spec fn worked_on<T>(pending: Pending<T>) -> Seq<T> {
    match pending {
        Pending::Visit(tree) => seq![tree.item],
        Pending::Enter(_) => seq![],
    }
}

proof fn lemma_items_left_concat<T>(low: Seq<Pending<T>>, high: Seq<Pending<T>>)
    ensures
        items_left(low + high) == items_left(high) + items_left(low),
    decreases high.len(),
{
    if high.len() == 0 {
        assert(low + high == low);
        assert(items_left(high) == Seq::<T>::empty());
    } else {
        assert((low + high).drop_last() == low + high.drop_last());
        lemma_items_left_concat(low, high.drop_last());
        assert(items_left(low + high) == items_left(high) + items_left(low));
    }
}

proof fn lemma_visits<T>(trees: Seq<Tree<T>>)
    ensures
        items_left(visits(trees)) == preorder_all(trees),
    decreases trees.len(),
{
    if trees.len() > 0 {
        assert(visits(trees).drop_last() == visits(trees.drop_first()));
        assert(visits(trees).last() == Pending::Visit(trees[0]));
        lemma_visits(trees.drop_first());
    }
}

proof fn lemma_done_one<T>(stack: Seq<Pending<T>>)
    requires
        stack.len() > 0,
    ensures
        items_left(stack) == worked_on(stack.last()) + items_left(done_one(stack)),
{
    let rest = stack.drop_last();
    match stack.last() {
        Pending::Visit(tree) => {
            if !tree.leaf {
                let next = rest.push(Pending::Enter(tree));
                assert(next.drop_last() == rest);
                assert(items_left(stack) == worked_on(stack.last()) + items_left(next));
            }
        },
        Pending::Enter(tree) => {
            lemma_items_left_concat(rest, visits(tree.children));
            lemma_visits(tree.children);
            assert(items_left(stack) == worked_on(stack.last()) + items_left(done_one(stack)));
        },
    }
}

/// The walk whose tasks stand for a stack of things to do.
pub open spec fn walk_for<T>(stack: Seq<Pending<T>>) -> WalkView<T> {
    if stack.len() == 0 {
        WalkView::Done
    } else {
        WalkView::Active(tasks_for(stack))
    }
}

proof fn lemma_step<T>(stack: Seq<Pending<T>>, reply: Reply<T>)
    requires
        stack.len() > 0,
        truthful(stack.last(), reply),
    ensures
        walk_for(stack).after(reply) == walk_for(done_one(stack)),
{
    let tasks = tasks_for(stack);
    let rest = stack.drop_last();
    assert(tasks.drop_last() == tasks_for(rest));
    assert(tasks.last() == task_for(stack.last()));
    assert(settled(tasks_for(rest)) == walk_for(rest));
    match stack.last() {
        Pending::Visit(tree) => {
            assert(tasks_for(rest.push(Pending::Enter(tree))) == tasks_for(rest).push(
                Task::Enter(tree.item),
            ));
        },
        Pending::Enter(tree) => {
            let next = rest + visits(tree.children);
            match reply {
                Reply::Listed(Listing::Entries(entries)) => {
                    assert forall|i: int| 0 <= i < entries@.len() implies #[trigger] tasks_of(
                        entries@,
                    )[i] == task_for(visits(tree.children)[i]) by {
                        let j = entries@.len() - 1 - i;
                        assert(entries@[j] == Ok::<Entry<T>, String>(
                            Entry { item: tree.children[j].item, leaf: tree.children[j].leaf },
                        ));
                    }
                    assert(tasks_for(next) == tasks_for(rest) + tasks_of(entries@));
                },
                _ => {
                    assert(next == rest);
                },
            }
            assert(next.len() > 0 ==> tasks_for(next).last() == task_for(next.last()));
        },
    }
}

/// What is left to do after `n` things have been done.
pub open spec fn left_after<T>(stack: Seq<Pending<T>>, n: nat) -> Seq<Pending<T>>
    decreases n,
{
    if n == 0 {
        stack
    } else {
        let before = left_after(stack, (n - 1) as nat);
        if before.len() == 0 {
            before
        } else {
            done_one(before)
        }
    }
}

/// The items that are worked on while `n` things are done.
pub open spec fn worked_while<T>(stack: Seq<Pending<T>>, n: nat) -> Seq<T>
    decreases n,
{
    if n == 0 {
        seq![]
    } else {
        let before = left_after(stack, (n - 1) as nat);
        if before.len() == 0 {
            worked_while(stack, (n - 1) as nat)
        } else {
            worked_while(stack, (n - 1) as nat) + worked_on(before.last())
        }
    }
}

/// The walk after some replies.
pub open spec fn replied<T>(walk: WalkView<T>, replies: Seq<Reply<T>>) -> WalkView<T>
    decreases replies.len(),
{
    if replies.len() == 0 {
        walk
    } else {
        replied(walk, replies.drop_last()).after(replies.last())
    }
}

/// Whether each reply says that its action went well, and what is really there.
pub open spec fn all_truthful<T>(root: Tree<T>, replies: Seq<Reply<T>>) -> bool {
    forall|i: int|
        0 <= i < replies.len() ==> {
            let stack = left_after(seq![Pending::Visit(root)], i as nat);
            stack.len() > 0 ==> truthful(stack.last(), #[trigger] replies[i])
        }
}

proof fn lemma_replied<T>(root: Tree<T>, replies: Seq<Reply<T>>)
    requires
        !root.leaf,
        all_truthful(root, replies),
    ensures
        ({
            let start = seq![Pending::Visit(root)];
            let left = left_after(start, replies.len());
            &&& replied(WalkView::Active(seq![Task::Visit(root.item)]), replies) == walk_for(left)
            &&& worked_while(start, replies.len()) + items_left(left) == preorder(root)
        }),
    decreases replies.len(),
{
    let start = seq![Pending::Visit(root)];
    if replies.len() == 0 {
        assert(tasks_for(start) == seq![Task::Visit(root.item)]);
        assert(start.drop_last() == Seq::<Pending<T>>::empty());
        assert(items_left(start.drop_last()) == Seq::<T>::empty());
        assert(items_left(start) == preorder(root));
        assert(worked_while(start, 0) + items_left(start) == preorder(root));
    } else {
        let before = replies.drop_last();
        assert(all_truthful(root, before)) by {
            assert forall|i: int| 0 <= i < before.len() implies {
                let stack = left_after(start, i as nat);
                stack.len() > 0 ==> truthful(stack.last(), #[trigger] before[i])
            } by {
                assert(before[i] == replies[i]);
            }
        }
        lemma_replied(root, before);
        let stack = left_after(start, before.len());
        let last = replies[replies.len() - 1];
        assert((replies.len() - 1) as nat == before.len());
        if stack.len() > 0 {
            assert(truthful(stack.last(), last));
            lemma_step(stack, last);
            lemma_done_one(stack);
            assert(worked_while(start, replies.len()) + items_left(done_one(stack))
                == worked_while(start, before.len()) + (worked_on(stack.last()) + items_left(
                done_one(stack),
            )));
        }
    }
}

/// The walk works on every item of the tree exactly once, each directory before what
/// is in it, and on nothing below a leaf: where all goes well, what has been worked on
/// once the walk is done is the tree in preorder, and until then the beginning of it.
pub proof fn law_walk_is_preorder<T>(root: Tree<T>, replies: Seq<Reply<T>>)
    requires
        !root.leaf,
        all_truthful(root, replies),
    ensures
        ({
            let walk = replied(WalkView::Active(seq![Task::Visit(root.item)]), replies);
            let worked = worked_while(seq![Pending::Visit(root)], replies.len());
            &&& walk == walk_for(left_after(seq![Pending::Visit(root)], replies.len()))
            &&& walk is Done ==> worked == preorder(root)
            &&& worked.len() <= preorder(root).len()
            &&& worked == preorder(root).take(worked.len() as int)
        }),
{
    let start = seq![Pending::Visit(root)];
    let left = left_after(start, replies.len());
    lemma_replied(root, replies);
    if left.len() == 0 {
        assert(items_left(left) == Seq::<T>::empty());
    }
    assert(worked_while(start, replies.len()) == preorder(root).take(
        worked_while(start, replies.len()).len() as int,
    ));
}

/// The first failure ends the walk with its error.
pub proof fn law_first_failure_ends<T>(tasks: Seq<Task<T>>, error: String)
    requires
        tasks.len() > 0,
    ensures
        tasks.last() is Visit || tasks.last() is Leaf ==> WalkView::Active(tasks).after(
            Reply::Applied(Err(error)),
        ) == WalkView::<T>::Failed(error),
        tasks.last() is Enter ==> WalkView::Active(tasks).after(
            Reply::Listed(Listing::Failed(error)),
        ) == WalkView::<T>::Failed(error),
{
}

/// An entry that cannot be read ends the walk with its error, once all that comes before it
/// has been worked on; the first entry of a directory comes next after the directory.
pub proof fn law_unreadable_entry_ends<T>(
    rest: Seq<Task<T>>,
    item: T,
    entries: Vec<Result<Entry<T>, String>>,
    error: String,
)
    ensures
        WalkView::Active(rest.push(Task::Stop(error)).push(Task::Leaf(item))).after(
            Reply::Applied(Ok(())),
        ) == WalkView::<T>::Failed(error),
        entries@.len() > 0 && entries@[0] == Err::<Entry<T>, String>(error) ==> WalkView::Active(
            rest.push(Task::Enter(item)),
        ).after(Reply::Listed(Listing::Entries(entries))) == WalkView::<T>::Failed(error),
        entries@.len() > 0 && entries@[0] is Ok ==> {
            let next = WalkView::Active(rest.push(Task::Enter(item))).after(
                Reply::Listed(Listing::Entries(entries)),
            );
            &&& next is Active
            &&& next->Active_0.len() == rest.len() + entries@.len()
            &&& next->Active_0.last() == if entries@[0]->Ok_0.leaf {
                Task::Leaf(entries@[0]->Ok_0.item)
            } else {
                Task::Visit(entries@[0]->Ok_0.item)
            }
        },
{
    let stopped = rest.push(Task::<T>::Stop(error));
    assert(stopped.push(Task::Leaf(item)).drop_last() == stopped);
    let tasks = rest.push(Task::Enter(item));
    assert(tasks.drop_last() == rest);
    if entries@.len() > 0 {
        let all = rest + tasks_of(entries@);
        assert(all.last() == tasks_of(entries@)[entries@.len() - 1]);
        assert(tasks_of(entries@)[entries@.len() - 1] == task_of(entries@[0]));
    }
}

} // verus!

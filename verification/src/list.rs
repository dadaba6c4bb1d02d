//! A list widget for a variable-size collection of items, and the collections it can show.

use vstd::prelude::*;
use std::sync::Arc;
use crate::data::Data;

verus! {

/// The direction a list lays its children out along.
#[derive(Clone, Copy, Debug, PartialEq, Eq, Structural)]
pub enum Axis {
    /// Left to right, in a row.
    Horizontal,
    /// Top to bottom, in a column.
    Vertical,
}

/// A list widget for a variable-size collection of items: one child per item, each made by the
/// list's closure when it is needed.
pub struct List<F, C> {
    closure: F,
    children: Vec<C>,
    axis: Axis,
    flex: bool,
}

/// The mathematical model of a list.
pub struct ListModel<F, C> {
    /// What makes a new child.
    pub closure: F,
    /// The children, one per item shown.
    pub children: Seq<C>,
    pub axis: Axis,
    /// Whether each child gets an equal share of the space available.
    pub flex: bool,
}

impl<F, C> View for List<F, C> {
    type V = ListModel<F, C>;

    closed spec fn view(&self) -> ListModel<F, C> {
        ListModel { closure: self.closure, children: self.children@, axis: self.axis, flex: self.flex }
    }
}

/// A new list with no children.
pub open spec fn empty_list<F, C>(closure: F, axis: Axis) -> ListModel<F, C> {
    ListModel { closure, children: Seq::empty(), axis, flex: false }
}

/// `after` is `before` with its children brought to `len`: the children beyond `len` are
/// dropped, the others kept in place, and the missing ones made by the closure; everything else
/// is unchanged.
pub open spec fn children_updated<F: Fn() -> C, C>(
    before: ListModel<F, C>,
    after: ListModel<F, C>,
    len: nat,
) -> bool {
    &&& after.closure == before.closure
    &&& after.axis == before.axis
    &&& after.flex == before.flex
    &&& after.children.len() == len
    &&& forall|i: int|
        0 <= i < len && i < before.children.len() ==> #[trigger] after.children[i] == before.children[i]
    &&& forall|i: int|
        before.children.len() <= i < len ==> call_ensures(before.closure, (), #[trigger] after.children[i])
}

impl<C, F: Fn() -> C> List<F, C> {
    /// Creates a list whose children are made by `closure`, one each time a new child is
    /// needed, laid out along `axis`.
    pub fn new(closure: F, axis: Axis) -> (list: Self)
        ensures
            list@ == empty_list::<F, C>(closure, axis),
    {
        List { closure, children: Vec::new(), axis, flex: false }
    }

    /// Creates a list whose items are laid out left to right, in a row.
    pub fn horizontal(closure: F) -> (list: Self)
        ensures
            list@ == empty_list::<F, C>(closure, Axis::Horizontal),
    {
        Self::new(closure, Axis::Horizontal)
    }

    /// Creates a list whose items are laid out top to bottom, in a column.
    pub fn vertical(closure: F) -> (list: Self)
        ensures
            list@ == empty_list::<F, C>(closure, Axis::Vertical),
    {
        Self::new(closure, Axis::Vertical)
    }

    /// The list, with each child given an equal share of the space available when `flex` is
    /// `true`.
    pub fn with_flex(self, flex: bool) -> (list: Self)
        ensures
            list@ == (ListModel { flex, ..self@ }),
    {
        let mut list = self;
        list.flex = flex;
        list
    }

    /// Sets whether each child is given an equal share of the space available.
    pub fn set_flex(&mut self, flex: bool) -> (list: &mut Self)
        ensures
            (*list)@ == (ListModel { flex, ..old(self)@ }),
            *final(self) == *final(list),
    {
        self.flex = flex;
        self
    }

    /// The direction the children are laid out along.
    pub fn axis(&self) -> (axis: Axis)
        ensures
            axis == self@.axis,
    {
        self.axis
    }

    /// Whether each child is given an equal share of the space available.
    pub fn flex(&self) -> (flex: bool)
        ensures
            flex == self@.flex,
    {
        self.flex
    }

    /// The children, one per item shown.
    pub fn children(&self) -> (children: &Vec<C>)
        ensures
            children@ == self@.children,
    {
        &self.children
    }

    /// Creates or removes children so that there is one per item of `data`, when the widget is
    /// created or the data changes; returns whether children were added or removed.
    pub fn update_child_count<T, D: ListIter<T>>(&mut self, data: &D) -> (changed: bool)
        requires
            old(self)@.children.len() < data.spec_len() ==> call_requires(old(self)@.closure, ()),
        ensures
            changed == (old(self)@.children.len() != data.spec_len()),
            children_updated(old(self)@, final(self)@, data.spec_len()),
    {
        let len = self.children.len();
        let data_len = data.data_len();
        if len > data_len {
            self.children.truncate(data_len);
        } else if len < data_len {
            let mut i: usize = len;
            while i < data_len
                invariant
                    len <= i <= data_len,
                    self.children.len() == i,
                    self.closure == old(self).closure,
                    self.axis == old(self).axis,
                    self.flex == old(self).flex,
                    call_requires(self.closure, ()),
                    forall|k: int| 0 <= k < len ==> #[trigger] self.children@[k] == old(self).children@[k],
                    forall|k: int| len <= k < i ==> call_ensures(self.closure, (), #[trigger] self.children@[k]),
                decreases data_len - i,
            {
                let child = (self.closure)();
                self.children.push(child);
                i = i + 1;
            }
        }
        len != data_len
    }

    /// How many children are paired with an item, child `k` with item `k`: the children that
    /// an event, a paint or a lifecycle pass is handed to.
    pub fn paired_children<T, D: ListIter<T>>(&self, data: &D) -> (count: usize)
        ensures
            count == (if self@.children.len() < data.spec_len() { self@.children.len() } else { data.spec_len() }),
    {
        let len = self.children.len();
        let data_len = data.data_len();
        if len < data_len {
            len
        } else {
            data_len
        }
    }

    /// The list's part of a lifecycle event: when the widget has just been added, the children
    /// are brought to one per item; returns whether the children changed, so that the widget
    /// tree is told.
    pub fn lifecycle_children<T, D: ListIter<T>>(&mut self, widget_added: bool, data: &D) -> (children_changed: bool)
        requires
            widget_added && old(self)@.children.len() < data.spec_len() ==> call_requires(old(self)@.closure, ()),
        ensures
            widget_added ==> children_updated(old(self)@, final(self)@, data.spec_len())
                && children_changed == (old(self)@.children.len() != data.spec_len()),
            !widget_added ==> final(self)@ == old(self)@ && !children_changed,
    {
        if widget_added {
            self.update_child_count(data)
        } else {
            false
        }
    }

    /// The list's part of a data update: the children that existed before get the update (the
    /// first of the returned counts), then the children are brought to one per item; the second
    /// result says whether the children changed, so that the widget tree is told.
    pub fn update_children<T, D: ListIter<T>>(&mut self, data: &D) -> (result: (usize, bool))
        requires
            old(self)@.children.len() < data.spec_len() ==> call_requires(old(self)@.closure, ()),
        ensures
            result.0 == (if old(self)@.children.len() < data.spec_len() {
                old(self)@.children.len()
            } else {
                data.spec_len()
            }),
            children_updated(old(self)@, final(self)@, data.spec_len()),
            result.1 == (old(self)@.children.len() != data.spec_len()),
    {
        let updated = self.paired_children(data);
        let changed = self.update_child_count(data);
        (updated, changed)
    }
}

/// Bringing the children to the data's length a second time, for the same data, changes
/// nothing and reports no change.
pub proof fn lemma_update_is_idempotent<F: Fn() -> C, C>(
    before: ListModel<F, C>,
    once: ListModel<F, C>,
    twice: ListModel<F, C>,
    len: nat,
)
    requires
        children_updated(before, once, len),
        children_updated(once, twice, len),
    ensures
        twice == once,
        once.children.len() == len,
{
    assert(twice.children =~= once.children);
}

/// A collection of items that a [`List`] can show, one child per item.
pub trait ListIter<T> {
    /// The number of items.
    spec fn spec_len(&self) -> nat;

    /// [`ListIter::for_each`] may hand `arg` to its callback with index `k`.
    spec fn handed(&self, k: int, arg: T) -> bool;

    /// [`ListIter::for_each_mut`] may hand `arg` to its callback with index `k`.
    spec fn handed_mut(&self, k: int, arg: T) -> bool;

    /// Calls `cb` on each item, with its index, in order.
    fn for_each<F: FnMut(&T, usize)>(&self, cb: F)
        requires
            forall|k: usize, arg: &T| #![trigger call_requires(cb, (arg, k))]
                self.handed(k as int, *arg) ==> call_requires(cb, (arg, k)),
        ensures
            forall|k: usize| #![trigger index_below(k as int, self.spec_len())]
                index_below(k as int, self.spec_len()) ==>
                exists|arg: &T| #![trigger call_ensures(cb, (arg, k), ())]
                    self.handed(k as int, *arg) && call_ensures(cb, (arg, k), ()),
    ;

    /// Calls `cb` on each item, with its index, in order, letting it change the item, and
    /// keeps the changes.
    fn for_each_mut<F: FnMut(&mut T, usize)>(&mut self, cb: F)
        requires
            forall|k: usize, arg: &mut T| #![trigger call_requires(cb, (arg, k))]
                old(self).handed_mut(k as int, *arg) ==> call_requires(cb, (arg, k)),
        ensures
            final(self).spec_len() == old(self).spec_len(),
            forall|k: usize| #![trigger index_below(k as int, old(self).spec_len())]
                index_below(k as int, old(self).spec_len()) ==>
                exists|arg: &mut T| #![trigger call_ensures(cb, (arg, k), ())]
                    old(self).handed_mut(k as int, *arg) && call_ensures(cb, (arg, k), ()),
    ;

    /// The number of items.
    fn data_len(&self) -> (len: usize)
        ensures
            len == self.spec_len(),
    ;
}

/// `k` is an index below `len`.
pub open spec fn index_below(k: int, len: nat) -> bool {
    0 <= k < len
}

/// `k` is an index of `s`.
pub open spec fn is_index<T>(s: Seq<T>, k: int) -> bool {
    0 <= k < s.len()
}

/// The items of the pairs, in order.
pub open spec fn seconds<S, T>(pairs: Seq<(S, T)>) -> Seq<T> {
    pairs.map_values(|p: (S, T)| p.1)
}

/// Among the first `k` pairs the callback gave back, one holds a shared value that is not the
/// same as `shared`.
pub open spec fn shared_changed<S: Data, T>(shared: S, made: Seq<(S, T)>, k: int) -> bool {
    exists|j: int| 0 <= j < k && !shared.same_spec(&(#[trigger] made[j]).0)
}

/// The shared value before the call at index `k`, for a shared value that starts as `shared`
/// and follows the callback's pairs `made` once one of them changed it.
pub open spec fn shared_before<S: Data, T>(shared: S, made: Seq<(S, T)>, k: int) -> S {
    if k > 0 && shared_changed(shared, made, k) {
        made[k - 1].0
    } else {
        shared
    }
}

/// An item that comes back not the same as the original, at any index (the first included),
/// makes `for_each_mut` keep what the callback gave back, all of it, in index order.
pub proof fn lemma_changed_item_keeps_results<T: Data>(before: Seq<T>, made: Seq<T>, k: int)
    requires
        made.len() == before.len(),
        0 <= k < before.len(),
        !before[k].same_spec(&made[k]),
    ensures
        some_item_changed(before, made),
        (if some_item_changed(before, made) { made } else { before }) == made,
{
    assert(!(before[k]).same_spec(&made[k]));
}

/// `for_each_mut` leaves the items as they were only when every item came back the same.
pub proof fn lemma_unchanged_items_all_same<T: Data>(before: Seq<T>, made: Seq<T>)
    requires
        made.len() == before.len(),
        !some_item_changed(before, made),
    ensures
        forall|k: int| 0 <= k < before.len() ==> (#[trigger] before[k]).same_spec(&made[k]),
{
}

/// Once the callback has given back, at any index `j`, a shared value that is not the same as
/// the starting one, every later call is handed what the call before it left, and so is the
/// final shared value.
pub proof fn lemma_shared_change_is_followed<S: Data, T>(shared: S, made: Seq<(S, T)>, j: int, k: int)
    requires
        0 <= j < k <= made.len(),
        !shared.same_spec(&made[j].0),
    ensures
        shared_before(shared, made, k) == made[k - 1].0,
{
    assert(!shared.same_spec(&(made[j]).0));
}

/// While every shared value the callback gave back is the same as the starting one, each call is
/// handed (a clone of) the starting value, and it stays the final one.
pub proof fn lemma_shared_kept_while_same<S: Data, T>(shared: S, made: Seq<(S, T)>, k: int)
    requires
        0 <= k <= made.len(),
        forall|j: int| 0 <= j < k ==> shared.same_spec(&(#[trigger] made[j]).0),
    ensures
        shared_before(shared, made, k) == shared,
{
}

/// Appending a pair leaves the shared value before every earlier call as it was.
proof fn lemma_shared_prefix_stable<S: Data, T>(shared: S, made: Seq<(S, T)>, next: (S, T))
    ensures
        forall|k: int| 0 <= k <= made.len() ==>
            #[trigger] shared_before(shared, made.push(next), k) == shared_before(shared, made, k),
{
    assert forall|k: int| 0 <= k <= made.len() implies
        #[trigger] shared_before(shared, made.push(next), k) == shared_before(shared, made, k) by {
        let longer = made.push(next);
        if shared_changed(shared, longer, k) {
            let j = choose|j: int| 0 <= j < k && !shared.same_spec(&(#[trigger] longer[j]).0);
            assert(longer[j] == made[j]);
        }
        if shared_changed(shared, made, k) {
            let j = choose|j: int| 0 <= j < k && !shared.same_spec(&(#[trigger] made[j]).0);
            assert(longer[j] == made[j]);
        }
        if k > 0 {
            assert(longer[k - 1] == made[k - 1]);
        }
    }
}

/// Some item of `before` is not the same as the item at its index in `after`.
pub open spec fn some_item_changed<T: Data>(before: Seq<T>, after: Seq<T>) -> bool {
    exists|i: int| 0 <= i < before.len() && !(#[trigger] before[i]).same_spec(&after[i])
}

impl<T: Data> ListIter<T> for Arc<Vec<T>> {
    open spec fn spec_len(&self) -> nat {
        self@.len()
    }

    /// Each item itself, with its index.
    open spec fn handed(&self, k: int, arg: T) -> bool {
        is_index(self@, k) && arg == self@[k]
    }

    /// A clone of each item, with the item's index.
    open spec fn handed_mut(&self, k: int, arg: T) -> bool {
        is_index(self@, k) && cloned(self@[k], arg)
    }

    /// Call `k` is given item `k` itself.
    fn for_each<F: FnMut(&T, usize)>(&self, cb: F)
        ensures
            forall|k: usize| #![trigger is_index(self@, k as int)] is_index(self@, k as int) ==>
                call_ensures(cb, (&self@[k as int], k), ()),
    {
        let ghost cb_in = cb;
        let mut callback = cb;
        let items: &Vec<T> = &**self;
        let mut i: usize = 0;
        while i < items.len()
            invariant
                items@ == self@,
                callback == cb_in,
                i <= items.len(),
                forall|k: usize, arg: &T| #![trigger call_requires(cb_in, (arg, k))]
                    self.handed(k as int, *arg) ==> call_requires(cb_in, (arg, k)),
                forall|k: usize| #![trigger is_index(self@, k as int)] is_index(self@, k as int) && k < i ==>
                    call_ensures(cb_in, (&self@[k as int], k), ()),
            decreases items.len() - i,
        {
            callback(&items[i], i);
            i = i + 1;
        }
        assert forall|k: usize| #![trigger index_below(k as int, self.spec_len())]
            index_below(k as int, self.spec_len()) implies
            exists|arg: &T| #![trigger call_ensures(cb, (arg, k), ())]
                self.handed(k as int, *arg) && call_ensures(cb, (arg, k), ()) by {
            assert(is_index(self@, k as int));
            assert(call_ensures(cb, (&self@[k as int], k), ()));
        }
    }

    /// The items are replaced by what the callback made of clones of them, unless every item
    /// came back the same, in which case the collection is left as it was.
    fn for_each_mut<F: FnMut(&mut T, usize)>(&mut self, cb: F)
        ensures
            final(self)@.len() == old(self)@.len(),
            exists|made: Seq<T>|
                #![trigger some_item_changed(old(self)@, made)]
                made.len() == old(self)@.len()
                && (forall|k: usize| #![trigger is_index(made, k as int)] is_index(made, k as int) ==>
                    exists|arg: &mut T| #![trigger call_ensures(cb, (arg, k), ())]
                        cloned(old(self)@[k as int], *arg) && call_ensures(cb, (arg, k), ())
                        && *final(arg) == made[k as int])
                && final(self)@ == (if some_item_changed(old(self)@, made) { made } else { old(self)@ }),
    {
        let ghost cb_in = cb;
        let mut callback = cb;
        let items: &Vec<T> = &**self;
        let mut new_data: Vec<T> = Vec::with_capacity(items.len());
        let mut any_changed = false;
        let mut i: usize = 0;
        while i < items.len()
            invariant
                items@ == old(self)@,
                callback == cb_in,
                i <= items.len(),
                new_data@.len() == i,
                forall|k: usize, arg: &mut T| #![trigger call_requires(cb_in, (arg, k))]
                    old(self).handed_mut(k as int, *arg) ==> call_requires(cb_in, (arg, k)),
                forall|k: usize| #![trigger is_index(new_data@, k as int)] is_index(new_data@, k as int) ==>
                    exists|arg: &mut T| #![trigger call_ensures(cb_in, (arg, k), ())]
                        cloned(items@[k as int], *arg) && call_ensures(cb_in, (arg, k), ())
                        && *final(arg) == new_data@[k as int],
                any_changed == some_item_changed(items@.take(i as int), new_data@),
            decreases items.len() - i,
        {
            let ghost before = new_data@;
            let mut d = items[i].clone();
            let ghost given = d;
            callback(&mut d, i);
            assert(exists|arg: &mut T| #![trigger call_ensures(cb_in, (arg, i), ())]
                *arg == given && call_ensures(cb_in, (arg, i), ()) && *final(arg) == d);
            if !any_changed && !items[i].same(&d) {
                any_changed = true;
            }
            new_data.push(d);
            assert forall|k: usize| #![trigger is_index(new_data@, k as int)] is_index(new_data@, k as int) implies
                exists|arg: &mut T| #![trigger call_ensures(cb_in, (arg, k), ())]
                    cloned(items@[k as int], *arg) && call_ensures(cb_in, (arg, k), ())
                    && *final(arg) == new_data@[k as int] by {
                if k < i {
                    assert(new_data@[k as int] == before[k as int]);
                    assert(is_index(before, k as int));
                } else {
                    assert(k == i);
                }
            }
            proof {
                let taken = items@.take(i as int);
                let taken_next = items@.take(i + 1);
                if some_item_changed(taken, before) {
                    let j = choose|j: int| 0 <= j < taken.len() && !(#[trigger] taken[j]).same_spec(&before[j]);
                    assert(taken_next[j] == taken[j]);
                    assert(new_data@[j] == before[j]);
                }
                if some_item_changed(taken_next, new_data@) {
                    let j = choose|j: int| 0 <= j < taken_next.len() && !(#[trigger] taken_next[j]).same_spec(&new_data@[j]);
                    if j < i {
                        assert(taken[j] == taken_next[j]);
                        assert(new_data@[j] == before[j]);
                    }
                }
                if !some_item_changed(taken, before) && !items@[i as int].same_spec(&d) {
                    assert(taken_next[i as int] == items@[i as int]);
                }
            }
            i = i + 1;
        }
        let ghost made = new_data@;
        assert(items@.take(i as int) == items@);
        assert forall|k: usize| #![trigger index_below(k as int, old(self)@.len())]
            index_below(k as int, old(self)@.len()) implies
            exists|arg: &mut T| #![trigger call_ensures(cb, (arg, k), ())]
                old(self).handed_mut(k as int, *arg) && call_ensures(cb, (arg, k), ()) by {
            assert(is_index(made, k as int));
        }
        if any_changed {
            *self = Arc::new(new_data);
        }
        assert(made.len() == old(self)@.len()
            && (forall|k: usize| #![trigger is_index(made, k as int)] is_index(made, k as int) ==>
                exists|arg: &mut T| #![trigger call_ensures(cb, (arg, k), ())]
                    cloned(old(self)@[k as int], *arg) && call_ensures(cb, (arg, k), ())
                    && *final(arg) == made[k as int])
            && self@ == (if some_item_changed(old(self)@, made) { made } else { old(self)@ }));
    }

    fn data_len(&self) -> (len: usize) {
        self.len()
    }
}

/// A shared value shown beside each item: the list shows the pairs of the shared value and an
/// item.
impl<S: Data, T: Data> ListIter<(S, T)> for (S, Arc<Vec<T>>) {
    open spec fn spec_len(&self) -> nat {
        self.1@.len()
    }

    /// A pair of a clone of the shared value and a clone of each item, with the item's index.
    open spec fn handed(&self, k: int, arg: (S, T)) -> bool {
        is_index(self.1@, k) && cloned(self.0, arg.0) && cloned(self.1@[k], arg.1)
    }

    /// A pair of a shared value and a clone of each item, with the item's index; at the first
    /// index the shared value is a clone of the one the collection holds, and later calls are
    /// handed a clone of what the shared value has become by then.
    open spec fn handed_mut(&self, k: int, arg: (S, T)) -> bool {
        is_index(self.1@, k) && cloned(self.1@[k], arg.1) && (k == 0 ==> cloned(self.0, arg.0))
    }

    /// Call `k` is given a clone of the shared value paired with a clone of item `k`.
    fn for_each<F: FnMut(&(S, T), usize)>(&self, cb: F)
        ensures
            forall|k: usize| #![trigger is_index(self.1@, k as int)] is_index(self.1@, k as int) ==>
                exists|arg: (S, T)| #![trigger call_ensures(cb, (&arg, k), ())]
                    cloned(self.0, arg.0) && cloned(self.1@[k as int], arg.1) && call_ensures(cb, (&arg, k), ()),
    {
        let ghost cb_in = cb;
        let mut callback = cb;
        let items: &Vec<T> = &*self.1;
        let mut i: usize = 0;
        while i < items.len()
            invariant
                items@ == self.1@,
                callback == cb_in,
                i <= items.len(),
                forall|k: usize, arg: &(S, T)| #![trigger call_requires(cb_in, (arg, k))]
                    self.handed(k as int, *arg) ==> call_requires(cb_in, (arg, k)),
                forall|k: usize| #![trigger is_index(self.1@, k as int)] is_index(self.1@, k as int) && k < i ==>
                    exists|arg: (S, T)| #![trigger call_ensures(cb_in, (&arg, k), ())]
                        cloned(self.0, arg.0) && cloned(self.1@[k as int], arg.1) && call_ensures(cb_in, (&arg, k), ()),
            decreases items.len() - i,
        {
            let d = (self.0.clone(), items[i].clone());
            callback(&d, i);
            assert forall|k: usize| #![trigger is_index(self.1@, k as int)] is_index(self.1@, k as int) && k < i + 1 implies
                exists|arg: (S, T)| #![trigger call_ensures(cb_in, (&arg, k), ())]
                    cloned(self.0, arg.0) && cloned(self.1@[k as int], arg.1) && call_ensures(cb_in, (&arg, k), ()) by {
                if k == i {
                    assert(call_ensures(cb_in, (&d, k), ()));
                }
            }
            i = i + 1;
        }
        assert forall|k: usize| #![trigger index_below(k as int, self.spec_len())]
            index_below(k as int, self.spec_len()) implies
            exists|arg: &(S, T)| #![trigger call_ensures(cb, (arg, k), ())]
                self.handed(k as int, *arg) && call_ensures(cb, (arg, k), ()) by {
            assert(is_index(self.1@, k as int));
            let arg = choose|arg: (S, T)| cloned(self.0, arg.0) && cloned(self.1@[k as int], arg.1) && call_ensures(cb, (&arg, k), ());
            assert(call_ensures(cb, (&arg, k), ()));
        }
    }

    /// The items are replaced by what the callback made of clones of them, unless every item
    /// came back the same, in which case they are left as they were. Once the callback has
    /// given back a shared value that is not the same as the one it started with, the shared value
    /// follows what each later call gives back, and each call is given a clone of the shared value
    /// as it stands.
    fn for_each_mut<F: FnMut(&mut (S, T), usize)>(&mut self, cb: F)
        ensures
            final(self).1@.len() == old(self).1@.len(),
            exists|made: Seq<(S, T)>|
                #![trigger seconds(made)]
                made.len() == old(self).1@.len()
                && (forall|k: usize| #![trigger is_index(made, k as int)] is_index(made, k as int) ==>
                    exists|arg: &mut (S, T)| #![trigger call_ensures(cb, (arg, k), ())]
                        cloned(shared_before(old(self).0, made, k as int), (*arg).0)
                        && cloned(old(self).1@[k as int], (*arg).1)
                        && call_ensures(cb, (arg, k), ())
                        && *final(arg) == made[k as int])
                && final(self).0 == shared_before(old(self).0, made, made.len() as int)
                && final(self).1@ == (if some_item_changed(old(self).1@, seconds(made)) {
                    seconds(made)
                } else {
                    old(self).1@
                }),
    {
        let ghost cb_in = cb;
        let ghost shared0 = self.0;
        let mut callback = cb;
        let items: &Vec<T> = &*self.1;
        let mut new_data: Vec<T> = Vec::with_capacity(items.len());
        let mut any_shared_changed = false;
        let mut any_el_changed = false;
        let ghost mut made: Seq<(S, T)> = Seq::empty();
        let mut i: usize = 0;
        while i < items.len()
            invariant
                items@ == old(self).1@,
                self.1@ == old(self).1@,
                shared0 == old(self).0,
                callback == cb_in,
                i <= items.len(),
                made.len() == i,
                new_data@ == seconds(made),
                forall|k: usize, arg: &mut (S, T)| #![trigger call_requires(cb_in, (arg, k))]
                    old(self).handed_mut(k as int, *arg) ==> call_requires(cb_in, (arg, k)),
                forall|k: usize| #![trigger is_index(made, k as int)] is_index(made, k as int) ==>
                    exists|arg: &mut (S, T)| #![trigger call_ensures(cb_in, (arg, k), ())]
                        cloned(shared_before(shared0, made, k as int), (*arg).0)
                        && cloned(items@[k as int], (*arg).1)
                        && call_ensures(cb_in, (arg, k), ())
                        && *final(arg) == made[k as int],
                self.0 == shared_before(shared0, made, i as int),
                any_shared_changed == shared_changed(shared0, made, i as int),
                any_el_changed == some_item_changed(items@.take(i as int), new_data@),
            decreases items.len() - i,
        {
            let ghost before = made;
            let ghost data_before = new_data@;
            let mut d = (self.0.clone(), items[i].clone());
            let ghost given = d;
            callback(&mut d, i);
            let ghost result = d;
            assert(exists|arg: &mut (S, T)| #![trigger call_ensures(cb_in, (arg, i), ())]
                *arg == given && call_ensures(cb_in, (arg, i), ()) && *final(arg) == result);
            let (shared, element) = d;
            if !any_shared_changed && !self.0.same(&shared) {
                any_shared_changed = true;
            }
            if any_shared_changed {
                self.0 = shared;
            }
            if !any_el_changed && !items[i].same(&element) {
                any_el_changed = true;
            }
            new_data.push(element);
            proof {
                made = made.push(result);
                lemma_shared_prefix_stable(shared0, before, result);
                assert(new_data@ == seconds(made)) by {
                    assert(new_data@ =~= seconds(made));
                }
                assert(shared_changed(shared0, made, i + 1) == (shared_changed(shared0, before, i as int) || !shared0.same_spec(&result.0))) by {
                    if shared_changed(shared0, made, i + 1) && !shared_changed(shared0, before, i as int) {
                        let j = choose|j: int| 0 <= j < i + 1 && !shared0.same_spec(&(#[trigger] made[j]).0);
                        if j < i {
                            assert(made[j] == before[j]);
                        }
                    }
                    if shared_changed(shared0, before, i as int) {
                        let j = choose|j: int| 0 <= j < i && !shared0.same_spec(&(#[trigger] before[j]).0);
                        assert(made[j] == before[j]);
                    }
                    if !shared0.same_spec(&result.0) {
                        assert(made[i as int] == result);
                    }
                }
                let taken = items@.take(i as int);
                let taken_next = items@.take(i + 1);
                if some_item_changed(taken, data_before) {
                    let j = choose|j: int| 0 <= j < taken.len() && !(#[trigger] taken[j]).same_spec(&data_before[j]);
                    assert(taken_next[j] == taken[j]);
                    assert(new_data@[j] == data_before[j]);
                }
                if some_item_changed(taken_next, new_data@) {
                    let j = choose|j: int| 0 <= j < taken_next.len() && !(#[trigger] taken_next[j]).same_spec(&new_data@[j]);
                    if j < i {
                        assert(taken[j] == taken_next[j]);
                        assert(new_data@[j] == data_before[j]);
                    }
                }
                if !some_item_changed(taken, data_before) && !items@[i as int].same_spec(&result.1) {
                    assert(taken_next[i as int] == items@[i as int]);
                    assert(new_data@[i as int] == result.1);
                }
            }
            assert forall|k: usize| #![trigger is_index(made, k as int)] is_index(made, k as int) implies
                exists|arg: &mut (S, T)| #![trigger call_ensures(cb_in, (arg, k), ())]
                    cloned(shared_before(shared0, made, k as int), (*arg).0)
                    && cloned(items@[k as int], (*arg).1)
                    && call_ensures(cb_in, (arg, k), ())
                    && *final(arg) == made[k as int] by {
                if k < i {
                    assert(made[k as int] == before[k as int]);
                    assert(is_index(before, k as int));
                } else {
                    assert(k == i);
                }
            }
            i = i + 1;
        }
        assert(items@.take(i as int) == items@);
        assert forall|k: usize| #![trigger index_below(k as int, old(self).1@.len())]
            index_below(k as int, old(self).1@.len()) implies
            exists|arg: &mut (S, T)| #![trigger call_ensures(cb, (arg, k), ())]
                old(self).handed_mut(k as int, *arg) && call_ensures(cb, (arg, k), ()) by {
            assert(is_index(made, k as int));
            assert(shared_before(shared0, made, 0) == shared0);
        }
        if any_el_changed {
            self.1 = Arc::new(new_data);
        }
        assert(made.len() == old(self).1@.len()
            && (forall|k: usize| #![trigger is_index(made, k as int)] is_index(made, k as int) ==>
                exists|arg: &mut (S, T)| #![trigger call_ensures(cb, (arg, k), ())]
                    cloned(shared_before(old(self).0, made, k as int), (*arg).0)
                    && cloned(old(self).1@[k as int], (*arg).1)
                    && call_ensures(cb, (arg, k), ())
                    && *final(arg) == made[k as int])
            && self.0 == shared_before(old(self).0, made, made.len() as int)
            && self.1@ == (if some_item_changed(old(self).1@, seconds(made)) {
                seconds(made)
            } else {
                old(self).1@
            }));
    }

    fn data_len(&self) -> (len: usize) {
        self.1.len()
    }
}

} // verus!

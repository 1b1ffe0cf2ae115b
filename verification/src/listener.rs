//! Listeners, the table they are registered in, and who is to be notified.
use crate::api::{ConfigChangeListener, ConfigResponse, ConfigResponseView};
use std::sync::Arc;
use vstd::prelude::*;

verus! {

/// The address of the value that `listener` points to, by `Arc::as_ptr`.
///
/// Nothing is claimed of the number: it differs from run to run. That two `Arc`s
/// which are alive at the same time give one number exactly when they share one
/// allocation is how it is used, and is not stated here.
#[verifier::external_body]
fn address_of<L: ?Sized>(listener: &Arc<L>) -> (address: usize) {
    Arc::as_ptr(listener).cast::<()>().addr()
}

/// `id` is what taking the address of `target` may give.
pub closed spec fn is_address_of<L: ?Sized>(target: Arc<L>, id: usize) -> bool {
    call_ensures(address_of::<L>, (&target,), id)
}

/// A listener together with its identity.
///
/// Listeners are told apart by where they live, not by what they hold. The
/// handle owns the listener, so the address it took as identity stays taken for
/// as long as the handle is alive.
pub struct ListenerHandle<L: ?Sized = dyn ConfigChangeListener> {
    id: usize,
    target: Arc<L>,
}

impl<L: ?Sized> ListenerHandle<L> {
    /// What the listener is recognised by.
    pub closed spec fn id(&self) -> usize {
        self.id
    }

    pub closed spec fn spec_target(&self) -> Arc<L> {
        self.target
    }

    /// A handle of `target`, with its address as identity.
    ///
    /// Which address that is depends on where the listener was allocated.
    pub fn new(target: Arc<L>) -> (handle: Self)
        ensures
            handle.target() == target,
            is_address_of(target, handle.id()),
    {
        let id: usize = address_of(&target);
        ListenerHandle { id, target }
    }

    /// The listener itself.
    #[verifier::when_used_as_spec(spec_target)]
    pub fn target(&self) -> (target: Arc<L>)
        ensures
            target == self.target(),
    {
        Arc::clone(&self.target)
    }
}

impl<L: ?Sized> Clone for ListenerHandle<L> {
    /// Another handle of the same listener.
    fn clone(&self) -> (handle: Self)
        ensures
            handle == *self,
    {
        ListenerHandle { id: self.id, target: Arc::clone(&self.target) }
    }
}

/// A registered listener and the md5 it was last notified of.
pub struct ListenerWrapper<L: ?Sized = dyn ConfigChangeListener> {
    /// The md5 of the last notification; empty before the first.
    pub last_md5: String,
    pub listener: ListenerHandle<L>,
}

/// What a [`ListenerWrapper`] stands for.
#[verifier::ext_equal]
pub struct ListenerEntry<L: ?Sized> {
    pub listener: ListenerHandle<L>,
    pub last_md5: Seq<char>,
}

impl<L: ?Sized> View for ListenerWrapper<L> {
    type V = ListenerEntry<L>;

    open spec fn view(&self) -> ListenerEntry<L> {
        ListenerEntry { listener: self.listener, last_md5: self.last_md5@ }
    }
}

impl<L: ?Sized> ListenerWrapper<L> {
    /// A listener that has not been notified of anything.
    pub fn new(listener: ListenerHandle<L>) -> (wrapper: Self)
        ensures
            wrapper@ == fresh_entry(listener),
            wrapper.listener == listener,
            wrapper.last_md5@.len() == 0,
    {
        ListenerWrapper { last_md5: String::new(), listener }
    }
}

/// The entry of a listener that has not been notified of anything.
pub open spec fn fresh_entry<L: ?Sized>(listener: ListenerHandle<L>) -> ListenerEntry<L> {
    ListenerEntry { listener, last_md5: Seq::empty() }
}

/// `i` is the first place at which the listener `id` is registered.
pub open spec fn first_at<L: ?Sized>(entries: Seq<ListenerEntry<L>>, id: usize, i: int) -> bool {
    &&& 0 <= i < entries.len()
    &&& entries[i].listener.id() == id
    &&& forall|j: int| 0 <= j < i ==> (#[trigger] entries[j]).listener.id() != id
}

/// The listener `id` is registered.
pub open spec fn is_registered<L: ?Sized>(entries: Seq<ListenerEntry<L>>, id: usize) -> bool {
    exists|i: int| 0 <= i < entries.len() && (#[trigger] entries[i]).listener.id() == id
}

/// No listener is registered twice.
pub open spec fn all_distinct<L: ?Sized>(entries: Seq<ListenerEntry<L>>) -> bool {
    forall|i: int, j: int|
        0 <= i < j < entries.len() ==> (#[trigger] entries[i]).listener.id() != (
        #[trigger] entries[j]).listener.id()
}

/// The table after `listener` has been registered: a registered listener keeps
/// its place and its md5, another one comes last.
pub open spec fn with_listener<L: ?Sized>(
    entries: Seq<ListenerEntry<L>>,
    listener: ListenerHandle<L>,
) -> Seq<ListenerEntry<L>> {
    if is_registered(entries, listener.id()) {
        entries
    } else {
        entries.push(fresh_entry(listener))
    }
}

/// The table after the listener `id` has been taken out: the last entry moves
/// into its place.
pub open spec fn without_listener<L: ?Sized>(
    entries: Seq<ListenerEntry<L>>,
    id: usize,
) -> Seq<ListenerEntry<L>> {
    if is_registered(entries, id) {
        let i = choose|i: int| first_at(entries, id, i);
        entries.update(i, entries.last()).drop_last()
    } else {
        entries
    }
}

/// The entries that have not been notified of `md5`, in table order.
pub open spec fn behind<L: ?Sized>(
    entries: Seq<ListenerEntry<L>>,
    md5: Seq<char>,
) -> Seq<ListenerEntry<L>> {
    entries.filter(|entry: ListenerEntry<L>| entry.last_md5 != md5)
}

/// The table once everybody has been notified of `md5`.
pub open spec fn caught_up<L: ?Sized>(
    entries: Seq<ListenerEntry<L>>,
    md5: Seq<char>,
) -> Seq<ListenerEntry<L>> {
    entries.map_values(
        |entry: ListenerEntry<L>| ListenerEntry { listener: entry.listener, last_md5: md5 },
    )
}

/// A call that is owed to a listener.
pub struct Notification<L: ?Sized = dyn ConfigChangeListener> {
    pub listener: ListenerHandle<L>,
    pub config_resp: ConfigResponse,
}

/// What a [`Notification`] stands for.
#[verifier::ext_equal]
pub struct NotificationView<L: ?Sized> {
    pub listener: ListenerHandle<L>,
    pub config_resp: ConfigResponseView,
}

impl<L: ?Sized> View for Notification<L> {
    type V = NotificationView<L>;

    open spec fn view(&self) -> NotificationView<L> {
        NotificationView { listener: self.listener, config_resp: self.config_resp@ }
    }
}

/// One notification with `config_resp` for each of `entries`, in their order.
pub open spec fn notifications_for<L: ?Sized>(
    entries: Seq<ListenerEntry<L>>,
    config_resp: ConfigResponseView,
) -> Seq<NotificationView<L>> {
    entries.map_values(
        |entry: ListenerEntry<L>| NotificationView { listener: entry.listener, config_resp },
    )
}

/// What a list of notifications stands for.
pub open spec fn notification_views<L: ?Sized>(
    notifications: Seq<Notification<L>>,
) -> Seq<NotificationView<L>> {
    notifications.map_values(|notification: Notification<L>| notification@)
}

/// The listeners of one entry.
pub struct ListenerTable<L: ?Sized = dyn ConfigChangeListener> {
    entries: Vec<ListenerWrapper<L>>,
}

impl<L: ?Sized> View for ListenerTable<L> {
    type V = Seq<ListenerEntry<L>>;

    closed spec fn view(&self) -> Seq<ListenerEntry<L>> {
        self.entries@.map_values(|wrapper: ListenerWrapper<L>| wrapper@)
    }
}

impl<L: ?Sized> ListenerTable<L> {
    /// A table without listeners.
    pub fn new() -> (table: Self)
        ensures
            table@ == Seq::<ListenerEntry<L>>::empty(),
    {
        ListenerTable { entries: Vec::new() }
    }

    /// The registered listeners, in table order.
    pub fn entries(&self) -> (entries: &[ListenerWrapper<L>])
        ensures
            entries@.map_values(|wrapper: ListenerWrapper<L>| wrapper@) == self@,
            entries@.len() == self@.len(),
            forall|i: int|
                0 <= i < entries@.len() ==> {
                    &&& (#[trigger] entries@[i]).listener == self@[i].listener
                    &&& entries@[i].last_md5@ == self@[i].last_md5
                },
    {
        self.entries.as_slice()
    }

    /// Where `listener` is registered, if it is.
    pub fn index_of_listener(&self, listener: &ListenerHandle<L>) -> (index: Option<usize>)
        ensures
            match index {
                Some(i) => first_at(self@, listener.id(), i as int),
                None => !is_registered(self@, listener.id()),
            },
            match index {
                Some(i) => {
                    &&& i < self@.len()
                    &&& self@[i as int].listener.id() == listener.id()
                    &&& forall|j: int|
                        0 <= j < i ==> (#[trigger] self@[j]).listener.id() != listener.id()
                },
                None => forall|j: int|
                    0 <= j < self@.len() ==> (#[trigger] self@[j]).listener.id() != listener.id(),
            },
    {
        let mut i: usize = 0;
        while i < self.entries.len()
            invariant
                i <= self.entries.len(),
                forall|j: int| 0 <= j < i ==> (#[trigger] self@[j]).listener.id() != listener.id(),
            decreases self.entries.len() - i,
        {
            assert(self@[i as int] == self.entries@[i as int]@);
            if self.entries[i].listener.id == listener.id {
                return Some(i);
            }
            i += 1;
        }
        None
    }

    /// Registers `listener`, unless it is registered already.
    pub fn add_listener(&mut self, listener: ListenerHandle<L>)
        ensures
            final(self)@ == with_listener(old(self)@, listener),
            (forall|i: int|
                0 <= i < old(self)@.len() ==> (#[trigger] old(self)@[i]).listener.id()
                    != listener.id()) ==> {
                &&& final(self)@.len() == old(self)@.len() + 1
                &&& final(self)@.drop_last() == old(self)@
                &&& final(self)@.last().listener == listener
                &&& final(self)@.last().last_md5.len() == 0
            },
            forall|i: int|
                0 <= i < old(self)@.len() && (#[trigger] old(self)@[i]).listener.id()
                    == listener.id() ==> final(self)@ == old(self)@,
            all_distinct(old(self)@) ==> all_distinct(final(self)@),
    {
        if self.index_of_listener(&listener).is_some() {
            return;
        }
        self.entries.push(ListenerWrapper::new(listener));
        assert(self@ == old(self)@.push(fresh_entry(listener)));
    }

    /// Takes `listener` out of the table, if it is registered. The last entry
    /// moves into its place.
    pub fn remove_listener(&mut self, listener: &ListenerHandle<L>)
        ensures
            final(self)@ == without_listener(old(self)@, listener.id()),
            (forall|i: int|
                0 <= i < old(self)@.len() ==> (#[trigger] old(self)@[i]).listener.id()
                    != listener.id()) ==> final(self)@ == old(self)@,
            forall|i: int|
                0 <= i < old(self)@.len() && (#[trigger] old(self)@[i]).listener.id()
                    == listener.id() && (forall|j: int|
                    0 <= j < i ==> (#[trigger] old(self)@[j]).listener.id() != listener.id())
                    ==> final(self)@ == old(self)@.update(i, old(self)@.last()).drop_last(),
            all_distinct(old(self)@) ==> all_distinct(final(self)@),
    {
        if let Some(index) = self.index_of_listener(listener) {
            let ghost i = choose|i: int| first_at(self@, listener.id(), i);
            assert(i == index);
            self.entries.swap_remove(index);
            assert(self@ == old(self)@.update(i, old(self)@.last()).drop_last());
        }
    }

    /// Works out who has not been notified of `md5`, notes that they have been
    /// now, and hands out the notifications that are owed.
    pub fn dispatch(&mut self, md5: &String, config_resp: &ConfigResponse) -> (notifications: Vec<
        Notification<L>,
    >)
        ensures
            notification_views(notifications@) == notifications_for(
                behind(old(self)@, md5@),
                config_resp@,
            ),
            notifications@.len() == behind(old(self)@, md5@).len(),
            forall|i: int|
                0 <= i < notifications@.len() ==> {
                    &&& (#[trigger] notifications@[i]).listener == behind(
                        old(self)@,
                        md5@,
                    )[i].listener
                    &&& notifications@[i].config_resp == *config_resp
                },
            final(self)@ == caught_up(old(self)@, md5@),
            final(self)@.len() == old(self)@.len(),
            forall|i: int|
                0 <= i < old(self)@.len() ==> {
                    &&& (#[trigger] final(self)@[i]).listener == old(self)@[i].listener
                    &&& final(self)@[i].last_md5 == md5@
                },
            all_distinct(old(self)@) ==> all_distinct(final(self)@),
    {
        let mut notifications: Vec<Notification<L>> = Vec::new();
        let mut i: usize = 0;
        let ghost before = self@;
        while i < self.entries.len()
            invariant
                i <= self.entries.len(),
                self@.len() == before.len() == self.entries.len(),
                forall|j: int| 0 <= j < i ==> #[trigger] self@[j] == caught_up(before, md5@)[j],
                forall|j: int| i <= j < before.len() ==> #[trigger] self@[j] == before[j],
                notification_views(notifications@) == notifications_for(
                    behind(before.take(i as int), md5@),
                    config_resp@,
                ),
                notifications@.len() == behind(before.take(i as int), md5@).len(),
                forall|j: int|
                    0 <= j < notifications@.len() ==> {
                        &&& (#[trigger] notifications@[j]).listener == behind(
                            before.take(i as int),
                            md5@,
                        )[j].listener
                        &&& notifications@[j].config_resp == *config_resp
                    },
            decreases self.entries.len() - i,
        {
            let ghost at_i = self@;
            assert(self@[i as int] == self.entries@[i as int]@);
            proof {
                lemma_behind_next(before, md5@, i as int);
            }
            if self.entries[i].last_md5 != *md5 {
                let ghost owed = notification_views(notifications@);
                let ghost next = NotificationView {
                    listener: before[i as int].listener,
                    config_resp: config_resp@,
                };
                let listener = self.entries[i].listener.clone();
                notifications.push(Notification { listener, config_resp: config_resp.clone() });
                assert(notification_views(notifications@) == owed.push(next));
                assert(notifications_for(
                    behind(before.take(i as int), md5@).push(before[i as int]),
                    config_resp@,
                ) == owed.push(next));
                self.entries[i].last_md5 = md5.clone();
                assert(self@ == at_i.update(i as int, caught_up(before, md5@)[i as int]));
            }
            i += 1;
        }
        assert(before.take(i as int) == before);
        assert(self@ == caught_up(before, md5@));
        notifications
    }
}

/// An identity is an address of the listener exactly if taking the address may
/// give it.
proof fn law_identity_is_the_address<L: ?Sized>(target: Arc<L>, id: usize)
    ensures
        is_address_of(target, id) <==> call_ensures(address_of::<L>, (&target,), id),
{
}

/// How one more entry adds to the entries that are behind.
proof fn lemma_behind_next<L: ?Sized>(entries: Seq<ListenerEntry<L>>, md5: Seq<char>, i: int)
    requires
        0 <= i < entries.len(),
    ensures
        behind(entries.take(i + 1), md5) == if entries[i].last_md5 != md5 {
            behind(entries.take(i), md5).push(entries[i])
        } else {
            behind(entries.take(i), md5)
        },
{
    reveal(Seq::filter);
    assert(entries.take(i + 1).drop_last() == entries.take(i));
}

} // verus!

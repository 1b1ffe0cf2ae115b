//! What holds of the entry and its listeners as a whole.
use crate::api::{ConfigResp, ConfigRespView, ConfigResponse, ConfigResponseView};
use crate::cache::{shown, CacheData, CacheDataView, SHOWN_CHARS};
use crate::filter::{
    first_step, response_for, FilterRun, FilterRunView, FilterStep, FilterStepView, RespSnapshot,
};
use crate::listener::{
    all_distinct, behind, caught_up, first_at, fresh_entry, is_registered, notification_views,
    notifications_for, with_listener, without_listener, ListenerEntry, ListenerHandle,
    ListenerWrapper, Notification, NotificationView,
};
use vstd::prelude::*;

verus! {

/// A registered listener has a first place in the table, and only one: the place
/// that is filled from the end when the listener is removed.
pub proof fn law_first_place_is_unique<L: ?Sized>(entries: Seq<ListenerEntry<L>>, id: usize)
    requires
        is_registered(entries, id),
    ensures
        exists|i: int| first_at(entries, id, i),
        forall|i: int, j: int| first_at(entries, id, i) && first_at(entries, id, j) ==> i == j,
        forall|i: int|
            #[trigger] first_at(entries, id, i) ==> without_listener(entries, id)
                == entries.update(i, entries.last()).drop_last(),
{
    let i = choose|i: int| 0 <= i < entries.len() && entries[i].listener.id() == id;
    lemma_first_at_up_to(entries, id, i);
}

/// A listener that has been added is registered, and nobody else's registration
/// changes.
pub proof fn law_add_registers<L: ?Sized>(
    entries: Seq<ListenerEntry<L>>,
    listener: ListenerHandle<L>,
    id: usize,
)
    ensures
        is_registered(with_listener(entries, listener), id) <==> id == listener.id()
            || is_registered(entries, id),
        entries.is_prefix_of(with_listener(entries, listener)),
{
    let after = with_listener(entries, listener);
    if !is_registered(entries, listener.id()) {
        assert(after[entries.len() as int] == fresh_entry(listener));
        if is_registered(entries, id) {
            let i = choose|i: int| 0 <= i < entries.len() && entries[i].listener.id() == id;
            assert(after[i] == entries[i]);
        }
    }
}

/// Adding a listener a second time changes nothing, whichever handle of it is
/// used.
pub proof fn law_add_twice_is_add_once<L: ?Sized>(
    entries: Seq<ListenerEntry<L>>,
    listener: ListenerHandle<L>,
    again: ListenerHandle<L>,
)
    requires
        listener.id() == again.id(),
    ensures
        with_listener(with_listener(entries, listener), again) == with_listener(entries, listener),
{
    law_add_registers(entries, listener, listener.id());
}

/// No listener is registered twice, whatever is added, removed or notified.
pub proof fn law_listeners_stay_distinct<L: ?Sized>(
    entries: Seq<ListenerEntry<L>>,
    listener: ListenerHandle<L>,
    id: usize,
    md5: Seq<char>,
)
    requires
        all_distinct(entries),
    ensures
        all_distinct(with_listener(entries, listener)),
        all_distinct(without_listener(entries, id)),
        all_distinct(caught_up(entries, md5)),
{
    if is_registered(entries, id) {
        law_first_place_is_unique(entries, id);
    }
}

/// Removing a listener that is not registered changes nothing; removing one that
/// was just added to a table without it gives the table back as it was.
pub proof fn law_remove_undoes_add<L: ?Sized>(
    entries: Seq<ListenerEntry<L>>,
    listener: ListenerHandle<L>,
)
    requires
        !is_registered(entries, listener.id()),
    ensures
        without_listener(entries, listener.id()) == entries,
        without_listener(with_listener(entries, listener), listener.id()) == entries,
{
    let id = listener.id();
    let after = with_listener(entries, listener);
    assert(after[entries.len() as int] == fresh_entry(listener));
    assert(is_registered(after, id));
    law_first_place_is_unique(after, id);
    let i = choose|i: int| first_at(after, id, i);
    assert(i == entries.len()) by {
        if i < entries.len() {
            assert(entries[i].listener.id() == id);
        }
    }
    assert(after.update(i, after.last()).drop_last() == entries);
}

/// After a listener has been removed it is not registered; every other listener
/// still is, with the md5 it was last notified of, and nothing has been added.
pub proof fn law_remove_takes_out_that_listener_only<L: ?Sized>(
    entries: Seq<ListenerEntry<L>>,
    id: usize,
)
    requires
        all_distinct(entries),
    ensures
        !is_registered(without_listener(entries, id), id),
        forall|entry: ListenerEntry<L>|
            without_listener(entries, id).contains(entry) <==> entries.contains(entry)
                && entry.listener.id() != id,
        without_listener(entries, id).len() == entries.len() - if is_registered(entries, id) {
            1int
        } else {
            0
        },
{
    let after = without_listener(entries, id);
    if is_registered(entries, id) {
        law_first_place_is_unique(entries, id);
        let i = choose|i: int| first_at(entries, id, i);
        assert forall|entry: ListenerEntry<L>|
            after.contains(entry) <==> entries.contains(entry) && entry.listener.id() != id by {
            if after.contains(entry) {
                let j = choose|j: int| 0 <= j < after.len() && after[j] == entry;
                if j == i {
                    assert(entries[entries.len() - 1] == entry);
                } else {
                    assert(entries[j] == entry);
                }
            }
            if entries.contains(entry) && entry.listener.id() != id {
                let j = choose|j: int| 0 <= j < entries.len() && entries[j] == entry;
                if j == entries.len() - 1 {
                    assert(after[i] == entry);
                } else {
                    assert(after[j] == entry);
                }
            }
        }
    }
    assert forall|j: int| 0 <= j < after.len() implies (#[trigger] after[j]).listener.id()
        != id by {
        assert(after.contains(after[j]));
    }
}

/// Removing a listener a second time changes nothing.
pub proof fn law_remove_twice_is_remove_once<L: ?Sized>(
    entries: Seq<ListenerEntry<L>>,
    id: usize,
)
    requires
        all_distinct(entries),
    ensures
        without_listener(without_listener(entries, id), id) == without_listener(entries, id),
{
    law_remove_takes_out_that_listener_only(entries, id);
}

/// A listener is notified exactly if the md5 it was last notified of is not the
/// newest one.
pub proof fn law_notified_iff_behind<L: ?Sized>(
    entries: Seq<ListenerEntry<L>>,
    md5: Seq<char>,
    entry: ListenerEntry<L>,
)
    ensures
        behind(entries, md5).contains(entry) <==> entries.contains(entry) && entry.last_md5 != md5,
    decreases entries.len(),
{
    reveal(Seq::filter);
    if entries.len() > 0 {
        let rest = entries.drop_last();
        law_notified_iff_behind(rest, md5, entry);
        assert(entries == rest.push(entries.last()));
        lemma_contains_push(rest, entries.last(), entry);
        lemma_contains_push(behind(rest, md5), entries.last(), entry);
    }
}

/// No listener is notified twice in one round.
pub proof fn law_notified_once_per_round<L: ?Sized>(
    entries: Seq<ListenerEntry<L>>,
    md5: Seq<char>,
)
    requires
        all_distinct(entries),
    ensures
        all_distinct(behind(entries, md5)),
    decreases entries.len(),
{
    reveal(Seq::filter);
    if entries.len() > 0 {
        let rest = entries.drop_last();
        let found = behind(rest, md5);
        law_notified_once_per_round(rest, md5);
        assert forall|j: int| 0 <= j < found.len() implies (#[trigger] found[j]).listener.id()
            != entries.last().listener.id() by {
            law_notified_iff_behind(rest, md5, found[j]);
            let k = choose|k: int| 0 <= k < rest.len() && rest[k] == found[j];
            assert(entries[k] == found[j]);
        }
    }
}

/// Once everybody has been notified of an md5, a further round with that md5
/// notifies nobody and changes nothing.
pub proof fn law_second_round_is_silent<L: ?Sized>(
    entries: Seq<ListenerEntry<L>>,
    md5: Seq<char>,
)
    ensures
        behind(caught_up(entries, md5), md5) == Seq::<ListenerEntry<L>>::empty(),
        caught_up(caught_up(entries, md5), md5) == caught_up(entries, md5),
{
    let after = caught_up(entries, md5);
    if behind(after, md5).len() > 0 {
        let entry = behind(after, md5)[0];
        law_notified_iff_behind(after, md5, entry);
    }
}

/// Once everybody has been notified of an md5, a round with another md5 notifies
/// everybody, in table order.
pub proof fn law_next_change_reaches_everybody<L: ?Sized>(
    entries: Seq<ListenerEntry<L>>,
    md5: Seq<char>,
    newer: Seq<char>,
)
    requires
        md5 != newer,
    ensures
        behind(caught_up(entries, md5), newer) == caught_up(entries, md5),
    decreases entries.len(),
{
    reveal(Seq::filter);
    if entries.len() > 0 {
        law_next_change_reaches_everybody(entries.drop_last(), md5, newer);
        assert(caught_up(entries, md5).drop_last() == caught_up(entries.drop_last(), md5));
    }
}

/// A listener that has just been registered is the last to be notified in the
/// next round, unless the configuration has no md5 yet: then it is not notified.
pub proof fn law_new_listener_is_notified<L: ?Sized>(
    entries: Seq<ListenerEntry<L>>,
    listener: ListenerHandle<L>,
    md5: Seq<char>,
)
    requires
        !is_registered(entries, listener.id()),
    ensures
        behind(with_listener(entries, listener), md5) == if md5.len() > 0 {
            behind(entries, md5).push(fresh_entry(listener))
        } else {
            behind(entries, md5)
        },
{
    reveal(Seq::filter);
    assert(entries.push(fresh_entry(listener)).drop_last() == entries);
    assert(md5.len() == 0 ==> md5 == Seq::<char>::empty());
}

/// A listener that is taken out and added again starts afresh: it comes last and
/// counts as notified of nothing.
pub proof fn law_readded_listener_starts_afresh<L: ?Sized>(
    entries: Seq<ListenerEntry<L>>,
    listener: ListenerHandle<L>,
)
    requires
        all_distinct(entries),
    ensures
        with_listener(without_listener(entries, listener.id()), listener) == without_listener(
            entries,
            listener.id(),
        ).push(fresh_entry(listener)),
{
    law_remove_takes_out_that_listener_only(entries, listener.id());
}

/// The step that is reached from `first` once the filters that were asked for
/// have answered with `replies`.
pub open spec fn step_after<F>(
    first: FilterStepView<F>,
    replies: Seq<ConfigRespView>,
) -> FilterStepView<F>
    decreases replies.len(),
{
    if replies.len() == 0 {
        first
    } else {
        match step_after(first, replies.drop_last()) {
            FilterStepView::Apply { run, .. } => run.step(replies.last()),
            FilterStepView::Done(config_resp) => FilterStepView::Done(config_resp),
        }
    }
}

/// The configuration as the last of `replies` has it; the entry's own where there
/// is none.
pub open spec fn latest<F, L: ?Sized>(
    data: CacheDataView<F, L>,
    replies: Seq<ConfigRespView>,
) -> ConfigRespView {
    if replies.len() == 0 {
        data.conf_resp()
    } else {
        replies.last()
    }
}

/// The filters run one after the other in their order, each once. The first gets
/// the entry's configuration, each other one what the filter before it made of
/// it. What the last one made of it is the response, with the content type and
/// the md5 of the entry.
pub proof fn law_filters_run_in_order<F, L: ?Sized>(
    data: CacheDataView<F, L>,
    replies: Seq<ConfigRespView>,
)
    requires
        replies.len() <= data.config_filters.len(),
    ensures
        step_after(data.first_step(), replies) == if replies.len() < data.config_filters.len() {
            FilterStepView::Apply {
                index: replies.len(),
                conf_resp: latest(data, replies),
                run: FilterRunView {
                    filters: data.config_filters,
                    next: replies.len() + 1,
                    content_type: data.content_type,
                    md5: data.md5,
                },
            }
        } else {
            FilterStepView::Done(response_for(latest(data, replies), data.content_type, data.md5))
        },
    decreases replies.len(),
{
    if replies.len() > 0 {
        law_filters_run_in_order(data, replies.drop_last());
    }
}

/// After a change has been announced everybody has been notified of the entry's
/// md5, and announcing it again, with whatever response, reaches nobody and
/// changes nothing.
pub proof fn law_change_is_announced_once<F, L: ?Sized>(
    data: CacheDataView<F, L>,
    config_resp: ConfigResponseView,
)
    ensures
        forall|i: int|
            0 <= i < data.listeners.len() ==> (#[trigger] data.notified().listeners[i]).last_md5
                == data.md5,
        data.notified().owed(config_resp).len() == 0,
        data.notified().notified() == data.notified(),
{
    law_second_round_is_silent(data.listeners, data.md5);
}

/// In a round over an unchanged entry every listener that is notified is handed a
/// response with the md5 that is then noted for it, whatever the filters answer.
pub proof fn law_noted_md5_is_that_of_the_response<F, L: ?Sized>(
    data: CacheDataView<F, L>,
    replies: Seq<ConfigRespView>,
)
    requires
        replies.len() == data.config_filters.len(),
    ensures
        step_after(data.first_step(), replies) matches FilterStepView::Done(config_resp) && {
            &&& forall|i: int|
                0 <= i < data.owed(config_resp).len() ==> (#[trigger] data.owed(
                    config_resp,
                )[i]).config_resp.md5 == data.md5
            &&& forall|i: int|
                0 <= i < data.listeners.len() ==> (
                #[trigger] data.notified().listeners[i]).last_md5 == data.md5
        },
{
    law_filters_run_in_order(data, replies);
}

/// What is shown of a content is the content itself where it is short enough, and
/// otherwise its beginning followed by three dots.
pub proof fn law_long_content_is_cut(content: Seq<char>)
    ensures
        content.len() <= SHOWN_CHARS ==> shown(content) == content,
        content.len() > SHOWN_CHARS ==> {
            &&& shown(content) == content.take(SHOWN_CHARS as int) + seq!['.', '.', '.']
            &&& shown(content).len() == SHOWN_CHARS + 3
        },
{
    reveal_strlit("...");
    assert("..."@ == seq!['.', '.', '.']);
}

/// A listener is registered exactly if some entry is its own, and its first place
/// is the one that no other entry of its own comes before.
pub proof fn law_registered_means_has_an_entry<L: ?Sized>(
    entries: Seq<ListenerEntry<L>>,
    id: usize,
    i: int,
)
    ensures
        !is_registered(entries, id) <==> (forall|j: int|
            0 <= j < entries.len() ==> (#[trigger] entries[j]).listener.id() != id),
        first_at(entries, id, i) <==> (0 <= i < entries.len() && entries[i].listener.id() == id && (
        forall|j: int| 0 <= j < i ==> (#[trigger] entries[j]).listener.id() != id)),
        all_distinct(entries) <==> (forall|j: int, k: int|
            0 <= j < k < entries.len() ==> (#[trigger] entries[j]).listener.id() != (
            #[trigger] entries[k]).listener.id()),
{
}

/// Adding a listener that has no entry yet makes the table one longer: the old
/// entries stay where they are and the new one, with no md5, comes last. Adding
/// one that has an entry changes nothing.
pub proof fn law_add_appends_or_keeps<L: ?Sized>(
    entries: Seq<ListenerEntry<L>>,
    listener: ListenerHandle<L>,
)
    ensures
        fresh_entry(listener).listener == listener,
        fresh_entry(listener).last_md5.len() == 0,
        (forall|i: int|
            0 <= i < entries.len() ==> (#[trigger] entries[i]).listener.id() != listener.id())
            ==> {
            &&& with_listener(entries, listener).len() == entries.len() + 1
            &&& forall|i: int|
                0 <= i < entries.len() ==> #[trigger] with_listener(entries, listener)[i]
                    == entries[i]
            &&& with_listener(entries, listener).last().listener == listener
            &&& with_listener(entries, listener).last().last_md5.len() == 0
        },
        forall|i: int|
            0 <= i < entries.len() && (#[trigger] entries[i]).listener.id() == listener.id()
                ==> with_listener(entries, listener) == entries,
{
}

/// Removing a listener whose first entry is at `i` makes the table one shorter:
/// the last entry stands at `i` then, and all others stay where they are.
/// Removing one without an entry changes nothing.
pub proof fn law_remove_fills_the_gap_from_the_end<L: ?Sized>(
    entries: Seq<ListenerEntry<L>>,
    id: usize,
    i: int,
)
    ensures
        (forall|j: int| 0 <= j < entries.len() ==> (#[trigger] entries[j]).listener.id() != id)
            ==> without_listener(entries, id) == entries,
        0 <= i < entries.len() && entries[i].listener.id() == id && (forall|j: int|
            0 <= j < i ==> (#[trigger] entries[j]).listener.id() != id) ==> {
            let after = without_listener(entries, id);
            &&& after.len() == entries.len() - 1
            &&& i < after.len() ==> after[i] == entries[entries.len() - 1]
            &&& forall|j: int| 0 <= j < after.len() && j != i ==> #[trigger] after[j] == entries[j]
        },
{
    if is_registered(entries, id) {
        law_first_place_is_unique(entries, id);
        if first_at(entries, id, i) {
            assert(without_listener(entries, id) == entries.update(
                i,
                entries.last(),
            ).drop_last());
        }
    }
}

/// Who is notified, entry by entry: an empty table owes nothing; one more entry
/// at the end adds one notification at the end, for its listener and with the
/// response as it is, if its md5 is not the newest one, and adds none if it is.
pub proof fn law_each_entry_behind_adds_one_notification<L: ?Sized>(
    entries: Seq<ListenerEntry<L>>,
    entry: ListenerEntry<L>,
    md5: Seq<char>,
    config_resp: ConfigResponseView,
)
    ensures
        behind(Seq::<ListenerEntry<L>>::empty(), md5).len() == 0,
        notifications_for(Seq::<ListenerEntry<L>>::empty(), config_resp).len() == 0,
        entry.last_md5 == md5 ==> behind(entries.push(entry), md5) == behind(entries, md5),
        entry.last_md5 != md5 ==> {
            &&& behind(entries.push(entry), md5) == behind(entries, md5).push(entry)
            &&& notifications_for(behind(entries.push(entry), md5), config_resp)
                == notifications_for(behind(entries, md5), config_resp).push(
                NotificationView { listener: entry.listener, config_resp },
            )
        },
{
    reveal(Seq::filter);
    assert(entries.push(entry).drop_last() == entries);
    assert(notifications_for(behind(entries, md5).push(entry), config_resp) == notifications_for(
        behind(entries, md5),
        config_resp,
    ).push(NotificationView { listener: entry.listener, config_resp }));
}

/// As many notifications are owed as there are entries behind; the i-th one is
/// for the listener of the i-th such entry and carries the response as it is.
pub proof fn law_everybody_behind_is_owed_the_response<F, L: ?Sized>(
    data: CacheDataView<F, L>,
    config_resp: ConfigResponseView,
)
    ensures
        data.owed(config_resp).len() == behind(data.listeners, data.md5).len(),
        forall|i: int|
            0 <= i < data.owed(config_resp).len() ==> {
                &&& (#[trigger] data.owed(config_resp)[i]).listener == behind(
                    data.listeners,
                    data.md5,
                )[i].listener
                &&& data.owed(config_resp)[i].config_resp == config_resp
            },
{
}

/// Every listener whose last md5 is not the newest one is owed a notification
/// with the response.
pub proof fn law_owed_to_all_behind<F, L: ?Sized>(
    data: CacheDataView<F, L>,
    config_resp: ConfigResponseView,
    i: int,
)
    requires
        0 <= i < data.listeners.len(),
        data.listeners[i].last_md5 != data.md5,
    ensures
        data.owed(config_resp).contains(
            NotificationView { listener: data.listeners[i].listener, config_resp },
        ),
{
    let late = behind(data.listeners, data.md5);
    law_notified_iff_behind(data.listeners, data.md5, data.listeners[i]);
    let k = choose|k: int| 0 <= k < late.len() && late[k] == data.listeners[i];
    assert(data.owed(config_resp)[k] == NotificationView {
        listener: data.listeners[i].listener,
        config_resp,
    });
}

/// Whoever is owed a notification is registered with another md5 than the newest
/// one.
pub proof fn law_owed_to_nobody_else<F, L: ?Sized>(
    data: CacheDataView<F, L>,
    config_resp: ConfigResponseView,
    k: int,
)
    requires
        0 <= k < data.owed(config_resp).len(),
    ensures
        exists|i: int|
            0 <= i < data.listeners.len() && (#[trigger] data.listeners[i]).last_md5 != data.md5
                && data.listeners[i].listener == data.owed(config_resp)[k].listener,
{
    let late = behind(data.listeners, data.md5);
    law_notified_iff_behind(data.listeners, data.md5, late[k]);
    assert(late.contains(late[k]));
    let i = choose|i: int| 0 <= i < data.listeners.len() && data.listeners[i] == late[k];
    assert(data.listeners[i].last_md5 != data.md5);
}

/// A round notes the newest md5 for every listener, keeps the listeners and their
/// order, and touches nothing else of the entry.
pub proof fn law_round_only_notes_the_md5<F, L: ?Sized>(data: CacheDataView<F, L>)
    ensures
        data.notified().listeners.len() == data.listeners.len(),
        forall|i: int|
            0 <= i < data.listeners.len() ==> {
                &&& (#[trigger] data.notified().listeners[i]).listener == data.listeners[i].listener
                &&& data.notified().listeners[i].last_md5 == data.md5
            },
        caught_up(data.listeners, data.md5) == data.notified().listeners,
        data.notified() == (CacheDataView { listeners: data.notified().listeners, ..data }),
{
}

/// A pass over a snapshot asks for its filters 0, 1, .. in turn, each once. The
/// first gets the snapshot's configuration, each other one what the one before
/// it answered. After the last answer the response is made of that answer, with
/// the content type and the md5 of the snapshot.
///
/// `steps` are the steps of the pass, `replies` what the filters answer.
pub proof fn law_snapshot_passes_its_filters_in_order<F>(
    snapshot: RespSnapshot<F>,
    replies: Seq<ConfigRespView>,
    steps: Seq<FilterStepView<F>>,
    k: int,
)
    requires
        replies.len() <= snapshot.0@.len(),
        steps.len() == replies.len() + 1,
        steps[0] == first_step(snapshot),
        forall|j: int|
            0 <= j < replies.len() ==> (#[trigger] steps[j] matches FilterStepView::Apply {
                run,
                ..
            } ==> steps[j + 1] == run.step(replies[j])),
        0 <= k <= replies.len(),
    ensures
        ({
            let current = if k == 0 {
                snapshot.1@
            } else {
                replies[k - 1]
            };
            steps[k] == if k < snapshot.0@.len() {
                FilterStepView::Apply {
                    index: k as nat,
                    conf_resp: current,
                    run: FilterRunView {
                        filters: snapshot.0@,
                        next: (k + 1) as nat,
                        content_type: snapshot.2@,
                        md5: snapshot.3@,
                    },
                }
            } else {
                FilterStepView::Done(
                    ConfigResponseView {
                        data_id: current.data_id,
                        group: current.group,
                        namespace: current.namespace,
                        content: current.content,
                        content_type: snapshot.2@,
                        md5: snapshot.3@,
                    },
                )
            }
        }),
    decreases k,
{
    if k > 0 {
        law_snapshot_passes_its_filters_in_order(snapshot, replies, steps, k - 1);
        assert(steps[k - 1 + 1] == steps[k]);
    }
}

/// A pass over the entry is a pass over any snapshot that holds the entry's
/// filters and, field by field, the entry's own configuration, content type and
/// md5.
pub proof fn law_entry_passes_as_its_snapshot_does<F, L: ?Sized>(
    data: CacheDataView<F, L>,
    snapshot: RespSnapshot<F>,
)
    requires
        snapshot.0@ == data.config_filters,
        snapshot.1.data_id@ == data.data_id,
        snapshot.1.group@ == data.group,
        snapshot.1.namespace@ == data.namespace,
        snapshot.1.content@ == data.content,
        snapshot.1.encrypted_data_key@ == data.encrypted_data_key,
        snapshot.2@ == data.content_type,
        snapshot.3@ == data.md5,
    ensures
        data.first_step() == first_step(snapshot),
{
}

/// The filters get the entry's configuration as it is, field by field.
pub proof fn law_filters_get_the_whole_configuration<F, L: ?Sized>(data: CacheDataView<F, L>)
    ensures
        data.conf_resp().data_id == data.data_id,
        data.conf_resp().group == data.group,
        data.conf_resp().namespace == data.namespace,
        data.conf_resp().content == data.content,
        data.conf_resp().encrypted_data_key == data.encrypted_data_key,
{
}

/// The response holds the filtered configuration as it is, field by field, and
/// the content type and md5 of the pass, whatever they are.
pub proof fn law_response_keeps_every_field(
    conf_resp: ConfigRespView,
    content_type: Seq<char>,
    md5: Seq<char>,
)
    ensures
        response_for(conf_resp, content_type, md5).data_id == conf_resp.data_id,
        response_for(conf_resp, content_type, md5).group == conf_resp.group,
        response_for(conf_resp, content_type, md5).namespace == conf_resp.namespace,
        response_for(conf_resp, content_type, md5).content == conf_resp.content,
        response_for(conf_resp, content_type, md5).content_type == content_type,
        response_for(conf_resp, content_type, md5).md5 == md5,
{
}

/// A pass with filters left asks for the next one and counts it; a pass without
/// any ends. Neither changes the filters, the content type or the md5.
pub proof fn law_step_asks_for_the_next_filter<F>(
    run: FilterRunView<F>,
    conf_resp: ConfigRespView,
)
    ensures
        run.next < run.filters.len() ==> (run.step(conf_resp) matches FilterStepView::Apply {
            index,
            conf_resp: handed,
            run: rest,
        } && {
            &&& index == run.next
            &&& handed == conf_resp
            &&& rest.next == run.next + 1
            &&& rest.filters == run.filters
            &&& rest.content_type == run.content_type
            &&& rest.md5 == run.md5
        }),
        run.next >= run.filters.len() ==> (run.step(conf_resp) matches FilterStepView::Done(
            response,
        ) && {
            &&& response.data_id == conf_resp.data_id
            &&& response.group == conf_resp.group
            &&& response.namespace == conf_resp.namespace
            &&& response.content == conf_resp.content
            &&& response.content_type == run.content_type
            &&& response.md5 == run.md5
        }),
{
}

/// The entry in words names every field behind its label, in this order, and ends
/// in the content: the whole of it up to thirty characters, the first thirty and
/// three dots beyond.
pub proof fn law_text_names_every_field<F, L: ?Sized>(data: CacheDataView<F, L>)
    ensures
        ({
            let head = "CacheData(namespace="@ + data.namespace + ",data_id="@ + data.data_id
                + ",group="@ + data.group + ",md5="@ + data.md5 + ",encrypted_data_key="@
                + data.encrypted_data_key + ",content_type="@ + data.content_type + ",content="@;
            &&& data.content.len() <= 30 ==> data.text() == head + data.content + ")"@
            &&& data.content.len() > 30 ==> data.text() == head + data.content.take(30) + "..."@
                + ")"@
        }),
{
    let head = "CacheData(namespace="@ + data.namespace + ",data_id="@ + data.data_id + ",group="@
        + data.group + ",md5="@ + data.md5 + ",encrypted_data_key="@ + data.encrypted_data_key
        + ",content_type="@ + data.content_type + ",content="@;
    assert(head + (data.content.take(30) + "..."@) == head + data.content.take(30) + "..."@);
}

/// Two entries that differ in nothing but contents of up to thirty characters
/// differ in words.
pub proof fn law_short_contents_are_told_apart<F, L: ?Sized>(
    data: CacheDataView<F, L>,
    content: Seq<char>,
)
    requires
        data.content.len() <= 30,
        content.len() <= 30,
        data.content != content,
    ensures
        data.text() != (CacheDataView { content, ..data }).text(),
{
    let other = CacheDataView { content, ..data };
    let head = "CacheData(namespace="@ + data.namespace + ",data_id="@ + data.data_id + ",group="@
        + data.group + ",md5="@ + data.md5 + ",encrypted_data_key="@ + data.encrypted_data_key
        + ",content_type="@ + data.content_type + ",content="@;
    law_text_names_every_field(data);
    law_text_names_every_field(other);
    if data.text() == other.text() {
        let at = head.len() as int;
        assert(data.text().len() == at + data.content.len() + ")"@.len());
        assert(other.text().len() == at + content.len() + ")"@.len());
        assert(data.text().subrange(at, at + data.content.len()) == data.content);
        assert(other.text().subrange(at, at + content.len()) == content);
    }
}

/// Of a content of more than thirty characters only the first thirty matter: two
/// entries that differ in nothing but what comes after them are the same in words.
pub proof fn law_long_contents_show_their_beginning<F, L: ?Sized>(
    data: CacheDataView<F, L>,
    content: Seq<char>,
)
    requires
        data.content.len() > 30,
        content.len() > 30,
    ensures
        data.content.take(30) == content.take(30) ==> data.text() == (CacheDataView {
            content,
            ..data
        }).text(),
        shown(content).len() == 33,
        shown(content).take(30) == content.take(30),
{
    reveal_strlit("...");
    law_text_names_every_field(data);
    law_text_names_every_field(CacheDataView { content, ..data });
    assert(shown(content).take(30) == content.take(30));
}

/// A blank entry has nothing in any field.
pub proof fn law_blank_entry_is_empty<F, L: ?Sized>()
    ensures
        ({
            let blank = CacheDataView::<F, L>::blank();
            &&& blank.data_id.len() == 0
            &&& blank.group.len() == 0
            &&& blank.namespace.len() == 0
            &&& blank.content_type.len() == 0
            &&& blank.content.len() == 0
            &&& blank.md5.len() == 0
            &&& blank.encrypted_data_key.len() == 0
            &&& blank.last_modified == 0
            &&& !blank.initializing
            &&& blank.listeners.len() == 0
            &&& blank.config_filters.len() == 0
        }),
{
}

/// What an entry stands for is what its fields hold, each on its own.
pub proof fn law_entry_view_is_field_by_field<F, L: ?Sized>(data: CacheData<F, L>)
    ensures
        data@.data_id == data.data_id@,
        data@.group == data.group@,
        data@.namespace == data.namespace@,
        data@.content_type == data.content_type@,
        data@.content == data.content@,
        data@.md5 == data.md5@,
        data@.encrypted_data_key == data.encrypted_data_key@,
        data@.last_modified == data.last_modified,
        data@.initializing == data.initializing,
        data@.listeners == data.listeners@,
        data@.config_filters == data.config_filters@,
        data@.wf() <==> all_distinct(data.listeners@),
{
}

/// What a configuration, a response, a notification and a registration stand for
/// is what their fields hold, each on its own.
pub proof fn law_messages_are_viewed_field_by_field<L: ?Sized>(
    conf_resp: ConfigResp,
    response: ConfigResponse,
    wrapper: ListenerWrapper<L>,
    notifications: Seq<Notification<L>>,
)
    ensures
        conf_resp@.data_id == conf_resp.data_id@,
        conf_resp@.group == conf_resp.group@,
        conf_resp@.namespace == conf_resp.namespace@,
        conf_resp@.content == conf_resp.content@,
        conf_resp@.encrypted_data_key == conf_resp.encrypted_data_key@,
        response@.data_id == response.data_id@,
        response@.group == response.group@,
        response@.namespace == response.namespace@,
        response@.content == response.content@,
        response@.content_type == response.content_type@,
        response@.md5 == response.md5@,
        wrapper@.listener == wrapper.listener,
        wrapper@.last_md5 == wrapper.last_md5@,
        notification_views(notifications).len() == notifications.len(),
        forall|i: int|
            0 <= i < notifications.len() ==> {
                &&& (#[trigger] notification_views(notifications)[i]).listener
                    == notifications[i].listener
                &&& notification_views(notifications)[i].config_resp
                    == notifications[i].config_resp@
            },
{
}

/// What a pass and a step of it stand for is what their fields hold, each on its
/// own.
pub proof fn law_steps_are_viewed_field_by_field<F>(run: FilterRun<F>, step: FilterStep<F>)
    ensures
        run@.filters == run.filters@,
        run@.next == run.next,
        run@.content_type == run.content_type@,
        run@.md5 == run.md5@,
        match step {
            FilterStep::Apply { index, conf_resp, run: rest } => step@ == (FilterStepView::Apply {
                index: index as nat,
                conf_resp: conf_resp@,
                run: rest@,
            }),
            FilterStep::Done(response) => step@ == FilterStepView::<F>::Done(response@),
        },
{
}

proof fn lemma_first_at_up_to<L: ?Sized>(entries: Seq<ListenerEntry<L>>, id: usize, i: int)
    requires
        0 <= i < entries.len(),
        entries[i].listener.id() == id,
    ensures
        exists|k: int| first_at(entries, id, k),
    decreases i,
{
    if exists|j: int| 0 <= j < i && (#[trigger] entries[j]).listener.id() == id {
        let j = choose|j: int| 0 <= j < i && (#[trigger] entries[j]).listener.id() == id;
        lemma_first_at_up_to(entries, id, j);
    } else {
        assert(first_at(entries, id, i));
    }
}

proof fn lemma_contains_push<A>(s: Seq<A>, last: A, a: A)
    ensures
        s.push(last).contains(a) <==> s.contains(a) || a == last,
{
    if s.contains(a) {
        let i = choose|i: int| 0 <= i < s.len() && s[i] == a;
        assert(s.push(last)[i] == a);
    }
    assert(s.push(last)[s.len() as int] == last);
}

} // verus!

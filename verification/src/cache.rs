//! The cache entry.
use crate::api::{ConfigChangeListener, ConfigResp, ConfigRespView, ConfigResponse, ConfigResponseView};
use crate::filter::{first_step, FilterRun, FilterRunView, FilterStep, FilterStepView, RespSnapshot};
use crate::listener::{
    all_distinct, behind, caught_up, notification_views, notifications_for, with_listener,
    without_listener, ListenerEntry, ListenerHandle, ListenerTable, Notification, NotificationView,
};
use std::sync::Arc;
use vstd::prelude::*;

verus! {

/// How many characters of the content are shown.
pub const SHOWN_CHARS: usize = 30;

/// What the client knows of one configuration.
///
/// `F` is the type of the filters, `L` that of the listeners; the entry keeps
/// both and calls neither.
pub struct CacheData<F, L: ?Sized = dyn ConfigChangeListener> {
    pub data_id: String,
    pub group: String,
    pub namespace: String,
    /// text, json, properties, html, xml, yaml ...; a new entry is text.
    pub content_type: String,
    pub content: String,
    pub md5: String,
    /// The key that the content is encrypted with, if it is.
    pub encrypted_data_key: String,
    pub last_modified: i64,
    /// Set until the configuration has been received for the first time.
    pub initializing: bool,
    /// Who wants to hear of changes.
    pub listeners: ListenerTable<L>,
    /// What a configuration passes through on its way to the listeners.
    pub config_filters: Arc<Vec<F>>,
}

/// What a [`CacheData`] stands for.
#[verifier::ext_equal]
pub struct CacheDataView<F, L: ?Sized> {
    pub data_id: Seq<char>,
    pub group: Seq<char>,
    pub namespace: Seq<char>,
    pub content_type: Seq<char>,
    pub content: Seq<char>,
    pub md5: Seq<char>,
    pub encrypted_data_key: Seq<char>,
    pub last_modified: i64,
    pub initializing: bool,
    pub listeners: Seq<ListenerEntry<L>>,
    pub config_filters: Seq<F>,
}

impl<F, L: ?Sized> View for CacheData<F, L> {
    type V = CacheDataView<F, L>;

    open spec fn view(&self) -> CacheDataView<F, L> {
        CacheDataView {
            data_id: self.data_id@,
            group: self.group@,
            namespace: self.namespace@,
            content_type: self.content_type@,
            content: self.content@,
            md5: self.md5@,
            encrypted_data_key: self.encrypted_data_key@,
            last_modified: self.last_modified,
            initializing: self.initializing,
            listeners: self.listeners@,
            config_filters: self.config_filters@,
        }
    }
}

impl<F, L: ?Sized> CacheDataView<F, L> {
    /// The entry with everything blank.
    pub open spec fn blank() -> Self {
        CacheDataView {
            data_id: Seq::empty(),
            group: Seq::empty(),
            namespace: Seq::empty(),
            content_type: Seq::empty(),
            content: Seq::empty(),
            md5: Seq::empty(),
            encrypted_data_key: Seq::empty(),
            last_modified: 0,
            initializing: false,
            listeners: Seq::empty(),
            config_filters: Seq::empty(),
        }
    }

    /// No listener is registered twice.
    pub open spec fn wf(self) -> bool {
        all_distinct(self.listeners)
    }

    /// The configuration before any filter has seen it.
    pub open spec fn conf_resp(self) -> ConfigRespView {
        ConfigRespView {
            data_id: self.data_id,
            group: self.group,
            namespace: self.namespace,
            content: self.content,
            encrypted_data_key: self.encrypted_data_key,
        }
    }

    /// The first step of a pass of the configuration through the filters.
    pub open spec fn first_step(self) -> FilterStepView<F> {
        FilterRunView {
            filters: self.config_filters,
            next: 0,
            content_type: self.content_type,
            md5: self.md5,
        }.step(self.conf_resp())
    }

    /// The entry once all listeners have been notified of its md5.
    pub open spec fn notified(self) -> Self {
        CacheDataView { listeners: caught_up(self.listeners, self.md5), ..self }
    }

    /// The notifications that are owed, each with `config_resp`.
    pub open spec fn owed(self, config_resp: ConfigResponseView) -> Seq<NotificationView<L>> {
        notifications_for(behind(self.listeners, self.md5), config_resp)
    }

    /// The entry in words.
    pub open spec fn text(self) -> Seq<char> {
        "CacheData(namespace="@ + self.namespace + ",data_id="@ + self.data_id + ",group="@
            + self.group + ",md5="@ + self.md5 + ",encrypted_data_key="@ + self.encrypted_data_key
            + ",content_type="@ + self.content_type + ",content="@ + shown(self.content) + ")"@
    }
}

/// As much of `content` as is shown.
pub open spec fn shown(content: Seq<char>) -> Seq<char> {
    if content.len() > SHOWN_CHARS {
        content.take(SHOWN_CHARS as int) + "..."@
    } else {
        content
    }
}

/// What is to be done next for a change to reach the listeners.
pub enum NotifyStep<F, L: ?Sized = dyn ConfigChangeListener> {
    /// Run filter number `index` on `conf_resp`, then resume `run` with what
    /// the filter made of it.
    Filter { index: usize, conf_resp: ConfigResp, run: FilterRun<F> },
    /// Deliver these, each in a task of its own.
    Deliver(Vec<Notification<L>>),
}

impl<F, L: ?Sized> CacheData<F, L> {
    /// An entry for a configuration that has not been received yet.
    pub fn new(
        config_filters: Arc<Vec<F>>,
        data_id: String,
        group: String,
        namespace: String,
    ) -> (data: Self)
        ensures
            data@ == (CacheDataView {
                data_id: data_id@,
                group: group@,
                namespace: namespace@,
                content_type: "text"@,
                initializing: true,
                config_filters: config_filters@,
                ..CacheDataView::<F, L>::blank()
            }),
            data.data_id == data_id,
            data.group == group,
            data.namespace == namespace,
            data.content_type@ == "text"@,
            data.content@.len() == 0,
            data.md5@.len() == 0,
            data.encrypted_data_key@.len() == 0,
            data.last_modified == 0,
            data.initializing,
            data.listeners@.len() == 0,
            data.config_filters == config_filters,
            data@.wf(),
    {
        CacheData {
            data_id,
            group,
            namespace,
            content_type: "text".to_string(),
            content: String::new(),
            md5: String::new(),
            encrypted_data_key: String::new(),
            last_modified: 0,
            initializing: true,
            listeners: ListenerTable::new(),
            config_filters,
        }
    }

    /// Registers `listener`, unless it is registered already.
    pub fn add_listener(&mut self, listener: ListenerHandle<L>)
        ensures
            final(self)@ == (CacheDataView {
                listeners: with_listener(old(self)@.listeners, listener),
                ..old(self)@
            }),
            (forall|i: int|
                0 <= i < old(self).listeners@.len() ==> (
                #[trigger] old(self).listeners@[i]).listener.id() != listener.id()) ==> {
                &&& final(self).listeners@.len() == old(self).listeners@.len() + 1
                &&& final(self).listeners@.drop_last() == old(self).listeners@
                &&& final(self).listeners@.last().listener == listener
                &&& final(self).listeners@.last().last_md5.len() == 0
            },
            forall|i: int|
                0 <= i < old(self).listeners@.len() && (
                #[trigger] old(self).listeners@[i]).listener.id() == listener.id()
                    ==> final(self).listeners@ == old(self).listeners@,
            final(self).data_id == old(self).data_id,
            final(self).group == old(self).group,
            final(self).namespace == old(self).namespace,
            final(self).content_type == old(self).content_type,
            final(self).content == old(self).content,
            final(self).md5 == old(self).md5,
            final(self).encrypted_data_key == old(self).encrypted_data_key,
            final(self).last_modified == old(self).last_modified,
            final(self).initializing == old(self).initializing,
            final(self).config_filters == old(self).config_filters,
            old(self)@.wf() ==> final(self)@.wf(),
    {
        self.listeners.add_listener(listener);
    }

    /// Takes `listener` out again, if it is registered.
    pub fn remove_listener(&mut self, listener: ListenerHandle<L>)
        ensures
            final(self)@ == (CacheDataView {
                listeners: without_listener(old(self)@.listeners, listener.id()),
                ..old(self)@
            }),
            (forall|i: int|
                0 <= i < old(self).listeners@.len() ==> (
                #[trigger] old(self).listeners@[i]).listener.id() != listener.id())
                ==> final(self).listeners@ == old(self).listeners@,
            forall|i: int|
                0 <= i < old(self).listeners@.len() && (
                #[trigger] old(self).listeners@[i]).listener.id() == listener.id() && (forall|
                    j: int,
                |
                    0 <= j < i ==> (#[trigger] old(self).listeners@[j]).listener.id()
                        != listener.id()) ==> final(self).listeners@ == old(
                    self,
                ).listeners@.update(i, old(self).listeners@.last()).drop_last(),
            final(self).data_id == old(self).data_id,
            final(self).group == old(self).group,
            final(self).namespace == old(self).namespace,
            final(self).content_type == old(self).content_type,
            final(self).content == old(self).content,
            final(self).md5 == old(self).md5,
            final(self).encrypted_data_key == old(self).encrypted_data_key,
            final(self).last_modified == old(self).last_modified,
            final(self).initializing == old(self).initializing,
            final(self).config_filters == old(self).config_filters,
            old(self)@.wf() ==> final(self)@.wf(),
    {
        self.listeners.remove_listener(&listener);
    }

    /// Brings a change to the listeners, starting from the step that
    /// [`Self::get_config_resp_after_filter`] gave. While there is a filter
    /// left to run nothing changes; after the last one the notifications are
    /// dispatched.
    pub fn notify_listener(&mut self, step: FilterStep<F>) -> (next: NotifyStep<F, L>)
        ensures
            match step {
                FilterStep::Apply { index, conf_resp, run } => {
                    &&& next == (NotifyStep::<F, L>::Filter { index, conf_resp, run })
                    &&& final(self)@ == old(self)@
                    &&& final(self).listeners@ == old(self).listeners@
                },
                FilterStep::Done(config_resp) => {
                    &&& next matches NotifyStep::Deliver(notifications)
                    &&& notification_views(notifications@) == old(self)@.owed(config_resp@)
                    &&& notifications@.len() == behind(old(self).listeners@, old(self).md5@).len()
                    &&& forall|i: int|
                        0 <= i < notifications@.len() ==> {
                            &&& (#[trigger] notifications@[i]).listener == behind(
                                old(self).listeners@,
                                old(self).md5@,
                            )[i].listener
                            &&& notifications@[i].config_resp == config_resp
                        }
                    &&& final(self)@ == old(self)@.notified()
                    &&& final(self).listeners@.len() == old(self).listeners@.len()
                    &&& forall|i: int|
                        0 <= i < old(self).listeners@.len() ==> {
                            &&& (#[trigger] final(self).listeners@[i]).listener == old(
                                self,
                            ).listeners@[i].listener
                            &&& final(self).listeners@[i].last_md5 == old(self).md5@
                        }
                },
            },
            final(self).data_id == old(self).data_id,
            final(self).group == old(self).group,
            final(self).namespace == old(self).namespace,
            final(self).content_type == old(self).content_type,
            final(self).content == old(self).content,
            final(self).md5 == old(self).md5,
            final(self).encrypted_data_key == old(self).encrypted_data_key,
            final(self).last_modified == old(self).last_modified,
            final(self).initializing == old(self).initializing,
            final(self).config_filters == old(self).config_filters,
            old(self)@.wf() ==> final(self)@.wf(),
    {
        match step {
            FilterStep::Apply { index, conf_resp, run } => NotifyStep::Filter {
                index,
                conf_resp,
                run,
            },
            FilterStep::Done(config_resp) => NotifyStep::Deliver(self.dispatch_notify(config_resp)),
        }
    }

    /// Hands out a notification with `config_resp` for each listener whose last
    /// md5 is not that of the entry, and notes that it has been notified.
    pub fn dispatch_notify(&mut self, config_resp: ConfigResponse) -> (notifications: Vec<
        Notification<L>,
    >)
        ensures
            notification_views(notifications@) == old(self)@.owed(config_resp@),
            notifications@.len() == behind(old(self).listeners@, old(self).md5@).len(),
            forall|i: int|
                0 <= i < notifications@.len() ==> {
                    &&& (#[trigger] notifications@[i]).listener == behind(
                        old(self).listeners@,
                        old(self).md5@,
                    )[i].listener
                    &&& notifications@[i].config_resp == config_resp
                },
            final(self)@ == old(self)@.notified(),
            final(self).listeners@.len() == old(self).listeners@.len(),
            forall|i: int|
                0 <= i < old(self).listeners@.len() ==> {
                    &&& (#[trigger] final(self).listeners@[i]).listener == old(
                        self,
                    ).listeners@[i].listener
                    &&& final(self).listeners@[i].last_md5 == old(self).md5@
                },
            final(self).data_id == old(self).data_id,
            final(self).group == old(self).group,
            final(self).namespace == old(self).namespace,
            final(self).content_type == old(self).content_type,
            final(self).content == old(self).content,
            final(self).md5 == old(self).md5,
            final(self).encrypted_data_key == old(self).encrypted_data_key,
            final(self).last_modified == old(self).last_modified,
            final(self).initializing == old(self).initializing,
            final(self).config_filters == old(self).config_filters,
            old(self)@.wf() ==> final(self)@.wf(),
    {
        self.listeners.dispatch(&self.md5, &config_resp)
    }

    /// What the filters start from. The entry may change while they run.
    pub fn resp_snapshot(&self) -> (snapshot: RespSnapshot<F>)
        ensures
            snapshot.0 == self.config_filters,
            snapshot.1@ == self@.conf_resp(),
            snapshot.2@ == self@.content_type,
            snapshot.3@ == self@.md5,
            snapshot.1.data_id@ == self.data_id@,
            snapshot.1.group@ == self.group@,
            snapshot.1.namespace@ == self.namespace@,
            snapshot.1.content@ == self.content@,
            snapshot.1.encrypted_data_key@ == self.encrypted_data_key@,
            snapshot.2@ == self.content_type@,
            snapshot.3@ == self.md5@,
    {
        (
            Arc::clone(&self.config_filters),
            ConfigResp::new(
                self.data_id.clone(),
                self.group.clone(),
                self.namespace.clone(),
                self.content.clone(),
                self.encrypted_data_key.clone(),
            ),
            self.content_type.clone(),
            self.md5.clone(),
        )
    }

    /// Starts a pass of `snapshot` through its filters.
    pub fn filtered_response(snapshot: RespSnapshot<F>) -> (step: FilterStep<F>)
        ensures
            step@ == first_step(snapshot),
            match step {
                FilterStep::Apply { index, conf_resp, run } => {
                    &&& snapshot.0@.len() > 0
                    &&& index == 0
                    &&& conf_resp == snapshot.1
                    &&& run.filters == snapshot.0
                    &&& run.next == 1
                    &&& run.content_type == snapshot.2
                    &&& run.md5 == snapshot.3
                },
                FilterStep::Done(response) => {
                    &&& snapshot.0@.len() == 0
                    &&& response.data_id == snapshot.1.data_id
                    &&& response.group == snapshot.1.group
                    &&& response.namespace == snapshot.1.namespace
                    &&& response.content == snapshot.1.content
                    &&& response.content_type == snapshot.2
                    &&& response.md5 == snapshot.3
                },
            },
    {
        let (filters, conf_resp, content_type, md5) = snapshot;
        FilterRun { filters, next: 0, content_type, md5 }.resume(conf_resp)
    }

    /// Starts a pass of the configuration as it is now through the filters.
    pub fn get_config_resp_after_filter(&self) -> (step: FilterStep<F>)
        ensures
            step@ == self@.first_step(),
            match step {
                FilterStep::Apply { index, conf_resp, run } => {
                    &&& self.config_filters@.len() > 0
                    &&& index == 0
                    &&& conf_resp.data_id@ == self.data_id@
                    &&& conf_resp.group@ == self.group@
                    &&& conf_resp.namespace@ == self.namespace@
                    &&& conf_resp.content@ == self.content@
                    &&& conf_resp.encrypted_data_key@ == self.encrypted_data_key@
                    &&& run.filters == self.config_filters
                    &&& run.next == 1
                    &&& run.content_type@ == self.content_type@
                    &&& run.md5@ == self.md5@
                },
                FilterStep::Done(response) => {
                    &&& self.config_filters@.len() == 0
                    &&& response.data_id@ == self.data_id@
                    &&& response.group@ == self.group@
                    &&& response.namespace@ == self.namespace@
                    &&& response.content@ == self.content@
                    &&& response.content_type@ == self.content_type@
                    &&& response.md5@ == self.md5@
                },
            },
    {
        Self::filtered_response(self.resp_snapshot())
    }

    /// The entry in words. Of a long content only the beginning is shown.
    pub fn to_display_string(&self) -> (text: String)
        ensures
            text@ == self@.text(),
    {
        let mut text = "CacheData(namespace=".to_string();
        text.append(self.namespace.as_str());
        text.append(",data_id=");
        text.append(self.data_id.as_str());
        text.append(",group=");
        text.append(self.group.as_str());
        text.append(",md5=");
        text.append(self.md5.as_str());
        text.append(",encrypted_data_key=");
        text.append(self.encrypted_data_key.as_str());
        text.append(",content_type=");
        text.append(self.content_type.as_str());
        text.append(",content=");
        let content = self.content.as_str();
        if content.unicode_len() > SHOWN_CHARS {
            text.append(content.substring_char(0, SHOWN_CHARS));
            text.append("...");
        } else {
            text.append(content);
        }
        text.append(")");
        text
    }
}

impl<F, L: ?Sized> Default for CacheData<F, L> {
    /// An entry with everything blank.
    fn default() -> (data: Self)
        ensures
            data@ == CacheDataView::<F, L>::blank(),
            data.data_id@.len() == 0,
            data.group@.len() == 0,
            data.namespace@.len() == 0,
            data.content_type@.len() == 0,
            data.content@.len() == 0,
            data.md5@.len() == 0,
            data.encrypted_data_key@.len() == 0,
            data.last_modified == 0,
            !data.initializing,
            data.listeners@.len() == 0,
            data.config_filters@.len() == 0,
            data@.wf(),
    {
        CacheData {
            data_id: String::new(),
            group: String::new(),
            namespace: String::new(),
            content_type: String::new(),
            content: String::new(),
            md5: String::new(),
            encrypted_data_key: String::new(),
            last_modified: 0,
            initializing: false,
            listeners: ListenerTable::new(),
            config_filters: Arc::new(Vec::new()),
        }
    }
}

} // verus!

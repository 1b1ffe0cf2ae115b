//! Running the filters over a snapshot, one after the other.
//!
//! A filter may wait for something, so the caller runs it. [`FilterRun`] says
//! which one is next and what it gets to see.
use crate::api::{ConfigResp, ConfigRespView, ConfigResponse, ConfigResponseView};
use std::sync::Arc;
use vstd::prelude::*;

verus! {

/// What the filters start from: the filters, the unfiltered configuration, its
/// content type and its md5.
pub type RespSnapshot<F> = (Arc<Vec<F>>, ConfigResp, String, String);

/// A pass through the filters, with `next` filters behind it or under way.
pub struct FilterRun<F> {
    pub filters: Arc<Vec<F>>,
    /// The number of the filter to run next.
    pub next: usize,
    pub content_type: String,
    pub md5: String,
}

/// What a [`FilterRun`] stands for.
#[verifier::ext_equal]
pub struct FilterRunView<F> {
    pub filters: Seq<F>,
    pub next: nat,
    pub content_type: Seq<char>,
    pub md5: Seq<char>,
}

impl<F> View for FilterRun<F> {
    type V = FilterRunView<F>;

    open spec fn view(&self) -> FilterRunView<F> {
        FilterRunView {
            filters: self.filters@,
            next: self.next as nat,
            content_type: self.content_type@,
            md5: self.md5@,
        }
    }
}

/// What is to be done next.
pub enum FilterStep<F> {
    /// Run filter number `index` on `conf_resp`, then resume `run` with what
    /// the filter made of it.
    Apply { index: usize, conf_resp: ConfigResp, run: FilterRun<F> },
    /// All filters have been run; this is the outcome.
    Done(ConfigResponse),
}

/// What a [`FilterStep`] stands for.
#[verifier::ext_equal]
pub enum FilterStepView<F> {
    Apply { index: nat, conf_resp: ConfigRespView, run: FilterRunView<F> },
    Done(ConfigResponseView),
}

impl<F> View for FilterStep<F> {
    type V = FilterStepView<F>;

    open spec fn view(&self) -> FilterStepView<F> {
        match self {
            FilterStep::Apply { index, conf_resp, run } => FilterStepView::Apply {
                index: *index as nat,
                conf_resp: conf_resp@,
                run: run@,
            },
            FilterStep::Done(config_resp) => FilterStepView::Done(config_resp@),
        }
    }
}

/// The response for a filtered configuration. The data key stays behind.
pub open spec fn response_for(
    conf_resp: ConfigRespView,
    content_type: Seq<char>,
    md5: Seq<char>,
) -> ConfigResponseView {
    ConfigResponseView {
        data_id: conf_resp.data_id,
        group: conf_resp.group,
        namespace: conf_resp.namespace,
        content: conf_resp.content,
        content_type,
        md5,
    }
}

impl<F> FilterRunView<F> {
    /// The step that follows when the configuration now reads `conf_resp`.
    pub open spec fn step(self, conf_resp: ConfigRespView) -> FilterStepView<F> {
        if self.next < self.filters.len() {
            FilterStepView::Apply {
                index: self.next,
                conf_resp,
                run: FilterRunView { next: self.next + 1, ..self },
            }
        } else {
            FilterStepView::Done(response_for(conf_resp, self.content_type, self.md5))
        }
    }
}

/// The first step of a pass over `snapshot`.
pub open spec fn first_step<F>(snapshot: RespSnapshot<F>) -> FilterStepView<F> {
    FilterRunView {
        filters: snapshot.0@,
        next: 0,
        content_type: snapshot.2@,
        md5: snapshot.3@,
    }.step(snapshot.1@)
}

impl<F> FilterRun<F> {
    /// Takes what a filter made of the configuration and says what comes next.
    pub fn resume(self, conf_resp: ConfigResp) -> (step: FilterStep<F>)
        ensures
            step@ == self@.step(conf_resp@),
            match step {
                FilterStep::Apply { index, conf_resp: handed, run } => {
                    &&& self.next < self.filters@.len()
                    &&& index == self.next
                    &&& handed == conf_resp
                    &&& run.filters == self.filters
                    &&& run.next == self.next + 1
                    &&& run.content_type == self.content_type
                    &&& run.md5 == self.md5
                },
                FilterStep::Done(response) => {
                    &&& self.next >= self.filters@.len()
                    &&& response.data_id == conf_resp.data_id
                    &&& response.group == conf_resp.group
                    &&& response.namespace == conf_resp.namespace
                    &&& response.content == conf_resp.content
                    &&& response.content_type == self.content_type
                    &&& response.md5 == self.md5
                },
            },
    {
        if self.next < self.filters.len() {
            let run = FilterRun {
                filters: self.filters,
                next: self.next + 1,
                content_type: self.content_type,
                md5: self.md5,
            };
            FilterStep::Apply { index: self.next, conf_resp, run }
        } else {
            FilterStep::Done(
                ConfigResponse::new(
                    conf_resp.data_id,
                    conf_resp.group,
                    conf_resp.namespace,
                    conf_resp.content,
                    self.content_type,
                    self.md5,
                ),
            )
        }
    }
}

} // verus!

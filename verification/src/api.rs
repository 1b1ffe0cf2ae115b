//! What passes between an entry, its filters and its listeners.
use vstd::prelude::*;

verus! {

/// A configuration on its way through the filters. The content may still be
/// encrypted, in which case `encrypted_data_key` says with what.
#[derive(Debug)]
pub struct ConfigResp {
    pub data_id: String,
    pub group: String,
    pub namespace: String,
    pub content: String,
    pub encrypted_data_key: String,
}

/// The characters of a [`ConfigResp`].
#[verifier::ext_equal]
pub struct ConfigRespView {
    pub data_id: Seq<char>,
    pub group: Seq<char>,
    pub namespace: Seq<char>,
    pub content: Seq<char>,
    pub encrypted_data_key: Seq<char>,
}

impl View for ConfigResp {
    type V = ConfigRespView;

    open spec fn view(&self) -> ConfigRespView {
        ConfigRespView {
            data_id: self.data_id@,
            group: self.group@,
            namespace: self.namespace@,
            content: self.content@,
            encrypted_data_key: self.encrypted_data_key@,
        }
    }
}

impl ConfigResp {
    pub fn new(
        data_id: String,
        group: String,
        namespace: String,
        content: String,
        encrypted_data_key: String,
    ) -> (resp: Self)
        ensures
            resp == (ConfigResp { data_id, group, namespace, content, encrypted_data_key }),
    {
        ConfigResp { data_id, group, namespace, content, encrypted_data_key }
    }
}

/// A configuration as a listener receives it.
#[derive(Debug)]
pub struct ConfigResponse {
    pub data_id: String,
    pub group: String,
    pub namespace: String,
    pub content: String,
    pub content_type: String,
    pub md5: String,
}

/// The characters of a [`ConfigResponse`].
#[verifier::ext_equal]
pub struct ConfigResponseView {
    pub data_id: Seq<char>,
    pub group: Seq<char>,
    pub namespace: Seq<char>,
    pub content: Seq<char>,
    pub content_type: Seq<char>,
    pub md5: Seq<char>,
}

impl View for ConfigResponse {
    type V = ConfigResponseView;

    open spec fn view(&self) -> ConfigResponseView {
        ConfigResponseView {
            data_id: self.data_id@,
            group: self.group@,
            namespace: self.namespace@,
            content: self.content@,
            content_type: self.content_type@,
            md5: self.md5@,
        }
    }
}

impl ConfigResponse {
    pub fn new(
        data_id: String,
        group: String,
        namespace: String,
        content: String,
        content_type: String,
        md5: String,
    ) -> (response: Self)
        ensures
            response == (ConfigResponse { data_id, group, namespace, content, content_type, md5 }),
    {
        ConfigResponse { data_id, group, namespace, content, content_type, md5 }
    }
}

impl Clone for ConfigResponse {
    fn clone(&self) -> (response: Self)
        ensures
            response == *self,
    {
        ConfigResponse {
            data_id: self.data_id.clone(),
            group: self.group.clone(),
            namespace: self.namespace.clone(),
            content: self.content.clone(),
            content_type: self.content_type.clone(),
            md5: self.md5.clone(),
        }
    }
}

/// Implemented by those who want to hear of configuration changes.
pub trait ConfigChangeListener: Send + Sync {
    /// Called with the new configuration, in a task of its own.
    fn notify(&self, config_resp: ConfigResponse);
}

} // verus!

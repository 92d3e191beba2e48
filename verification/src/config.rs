//! Runtime configuration: which services to track, where to keep state, and
//! how to notify.  Loading it from the configuration file is the caller's
//! concern; the values themselves are plain data.

use vstd::prelude::*;

verus! {

/// The whole configuration.
pub struct Config {
    pub storage_path: String,
    pub log_path: String,
    pub check_interval: u64,
    pub services: Vec<ServiceConfig>,
    pub enable_discord_webhooks: bool,
    pub discord_webhook_config: Option<DiscordWebhookConfig>,
}

/// One tracked service.
pub struct ServiceConfig {
    pub service: String,
    pub key: Option<String>,
    pub spatula: Option<String>,
    pub visibility_label: Option<String>,
    pub format: String,
}

/// Where and how notifications are delivered.
pub struct DiscordWebhookConfig {
    pub tracker_api_url: String,
    pub tag_mention_role_ids: Vec<TagMentionRoleId>,
    pub services: Vec<ServiceWebhook>,
    pub error_webhook_url: Option<String>,
    pub error_mention_role_id: Option<String>,
}

/// The role mentioned when a tag fires.
pub struct TagMentionRoleId {
    pub tag: String,
    pub role_id: String,
}

/// The webhook of one service.
pub struct ServiceWebhook {
    pub service: String,
    pub name: String,
    pub webhook_url: String,
}

#[verifier::ext_equal]
pub struct ServiceConfigView {
    pub service: Seq<char>,
    pub key: Option<Seq<char>>,
    pub spatula: Option<Seq<char>>,
    pub visibility_label: Option<Seq<char>>,
    pub format: Seq<char>,
}

impl DeepView for ServiceConfig {
    type V = ServiceConfigView;

    open spec fn deep_view(&self) -> ServiceConfigView {
        ServiceConfigView {
            service: self.service.deep_view(),
            key: self.key.deep_view(),
            spatula: self.spatula.deep_view(),
            visibility_label: self.visibility_label.deep_view(),
            format: self.format.deep_view(),
        }
    }
}

#[verifier::ext_equal]
pub struct TagMentionRoleIdView {
    pub tag: Seq<char>,
    pub role_id: Seq<char>,
}

impl DeepView for TagMentionRoleId {
    type V = TagMentionRoleIdView;

    open spec fn deep_view(&self) -> TagMentionRoleIdView {
        TagMentionRoleIdView { tag: self.tag.deep_view(), role_id: self.role_id.deep_view() }
    }
}

#[verifier::ext_equal]
pub struct ServiceWebhookView {
    pub service: Seq<char>,
    pub name: Seq<char>,
    pub webhook_url: Seq<char>,
}

impl DeepView for ServiceWebhook {
    type V = ServiceWebhookView;

    open spec fn deep_view(&self) -> ServiceWebhookView {
        ServiceWebhookView {
            service: self.service.deep_view(),
            name: self.name.deep_view(),
            webhook_url: self.webhook_url.deep_view(),
        }
    }
}

/// The document format fetched when the configuration names none.
pub fn default_format() -> (r: String)
    ensures
        r@ == "rest"@,
{
    "rest".to_owned()
}

} // verus!

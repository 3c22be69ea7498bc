//! What a notification target is told about an alert.

use vstd::prelude::*;
use vstd::string::*;
use crate::alerts::AlertConfig;
use crate::alerts::AlertState;

verus! {

/// The alert that a notification is about.
#[derive(Debug)]
pub struct AlertInfo {
    pub alert_id: u128,
    pub alert_name: String,
    pub alert_state: AlertState,
    pub severity: String,
}

/// The server that sends a notification.
#[derive(Debug)]
pub struct DeploymentInfo {
    pub deployment_instance: String,
    pub deployment_id: u128,
    pub deployment_mode: String,
}

/// Everything that a target is handed when it is called.
#[derive(Debug)]
pub struct Context {
    pub alert_info: AlertInfo,
    pub deployment_info: DeploymentInfo,
    pub message: String,
}

impl Clone for AlertInfo {
    fn clone(&self) -> (copy: Self)
        ensures
            copy == *self,
    {
        AlertInfo {
            alert_id: self.alert_id,
            alert_name: self.alert_name.clone(),
            alert_state: self.alert_state,
            severity: self.severity.clone(),
        }
    }
}

impl Clone for DeploymentInfo {
    fn clone(&self) -> (copy: Self)
        ensures
            copy == *self,
    {
        DeploymentInfo {
            deployment_instance: self.deployment_instance.clone(),
            deployment_id: self.deployment_id,
            deployment_mode: self.deployment_mode.clone(),
        }
    }
}

impl Clone for Context {
    fn clone(&self) -> (copy: Self)
        ensures
            copy == *self,
    {
        Context {
            alert_info: self.alert_info.clone(),
            deployment_info: self.deployment_info.clone(),
            message: self.message.clone(),
        }
    }
}

impl AlertInfo {
    pub fn new(alert_id: u128, alert_name: String, alert_state: AlertState, severity: String) -> (info:
        Self)
        ensures
            info == (AlertInfo { alert_id, alert_name, alert_state, severity }),
    {
        Self { alert_id, alert_name, alert_state, severity }
    }
}

impl DeploymentInfo {
    pub fn new(deployment_instance: String, deployment_id: u128, deployment_mode: String) -> (info:
        Self)
        ensures
            info == (DeploymentInfo { deployment_instance, deployment_id, deployment_mode }),
    {
        Self { deployment_instance, deployment_id, deployment_mode }
    }
}

impl Context {
    pub fn new(alert_info: AlertInfo, deployment_info: DeploymentInfo, message: String) -> (context:
        Self)
        ensures
            context == (Context { alert_info, deployment_info, message }),
    {
        Self { alert_info, deployment_info, message }
    }

    /// The text of a notification about a triggered alert.
    pub open spec fn alert_text(self, triggered_at: Seq<char>) -> Seq<char> {
        "AlertName: "@ + self.alert_info.alert_name@ + ", Triggered TimeStamp: "@ + triggered_at
            + ", Severity: "@ + self.alert_info.severity@ + ", Message: "@ + self.message@
    }

    /// Writes the notification about a triggered alert. `triggered_at` is
    /// the time of the notification as the caller wants it written.
    pub fn default_alert_string(&self, triggered_at: &str) -> (text: String)
        ensures
            text@ == self.alert_text(triggered_at@),
    {
        let mut text = "AlertName: ".to_owned();
        text.append(self.alert_info.alert_name.as_str());
        text.append(", Triggered TimeStamp: ");
        text.append(triggered_at);
        text.append(", Severity: ");
        text.append(self.alert_info.severity.as_str());
        text.append(", Message: ");
        text.append(self.message.as_str());
        text
    }

    /// Writes the notification about a resolved alert.
    pub fn default_resolved_string(&self) -> (text: String)
        ensures
            text@ == self.alert_info.alert_name@ + " is now resolved "@,
    {
        let mut text = self.alert_info.alert_name.clone();
        text.append(" is now resolved ");
        text
    }

    /// Writes the notification about a silenced alert.
    pub fn default_silenced_string(&self) -> (text: String)
        ensures
            text@ == "Notifications for "@ + self.alert_info.alert_name@ + " have been silenced "@,
    {
        let mut text = "Notifications for ".to_owned();
        text.append(self.alert_info.alert_name.as_str());
        text.append(" have been silenced ");
        text
    }
}

impl AlertConfig {
    /// The context of a notification about this alert, sent from the
    /// deployment `deployment`, with an empty message.
    pub fn get_context(&self, deployment: DeploymentInfo) -> (context: Context)
        ensures
            context.alert_info.alert_id == self.id,
            context.alert_info.alert_name == self.title,
            context.alert_info.alert_state == self.state,
            context.alert_info.severity@ == self.severity.name(),
            context.deployment_info == deployment,
            context.message@.len() == 0,
    {
        Context::new(
            AlertInfo::new(
                self.id,
                self.title.clone(),
                self.state,
                self.severity.as_str().to_owned(),
            ),
            deployment,
            String::new(),
        )
    }

    /// One context for each target of the alert, in the order of the
    /// targets, each with the message `message`.
    pub fn trigger_notifications(&self, deployment: DeploymentInfo, message: String) -> (contexts:
        Vec<Context>)
        ensures
            contexts@.len() == self.targets@.len(),
            forall|i: int|
                0 <= i < contexts@.len() ==> {
                    &&& (#[trigger] contexts@[i]).alert_info.alert_id == self.id
                    &&& contexts@[i].alert_info.alert_name == self.title
                    &&& contexts@[i].alert_info.alert_state == self.state
                    &&& contexts@[i].alert_info.severity@ == self.severity.name()
                    &&& contexts@[i].deployment_info == deployment
                    &&& contexts@[i].message == message
                },
    {
        let mut context = self.get_context(deployment);
        context.message = message;
        let mut contexts: Vec<Context> = Vec::new();
        let mut i: usize = 0;
        while i < self.targets.len()
            invariant
                i <= self.targets.len(),
                contexts@.len() == i,
                forall|j: int| 0 <= j < i ==> (#[trigger] contexts@[j]) == context,
            decreases self.targets.len() - i,
        {
            contexts.push(context.clone());
            i += 1;
        }
        contexts
    }
}

} // verus!

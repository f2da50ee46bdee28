//! The notification as the program handles it.

use crate::dedup;
use crate::dedup::fingerprint;
use crate::text;
use crate::text::copy_opt;
use crate::time::Timestamp;
use vstd::prelude::*;
use vstd::string::*;

verus! {

/// A detected notification.
#[derive(Debug, PartialEq, Eq)]
pub struct Notification {
    /// Stable identifier of the banner, if it exposed one. Notification Center
    /// reuses elements, so this does not identify the notification.
    pub id: Option<String>,
    pub app_name: String,
    pub title: String,
    pub message: String,
    pub timestamp: Timestamp,
}

/// What a notification says.
#[verifier::ext_equal]
pub struct NotificationView {
    pub id: Option<Seq<char>>,
    pub app_name: Seq<char>,
    pub title: Seq<char>,
    pub message: Seq<char>,
}

impl NotificationView {
    /// The content fingerprint.
    pub open spec fn print(self) -> Seq<char> {
        dedup::fingerprint_of(self.app_name, self.title, self.message)
    }
}

impl View for Notification {
    type V = NotificationView;

    open spec fn view(&self) -> NotificationView {
        NotificationView {
            id: text::opt_text(self.id),
            app_name: self.app_name@,
            title: self.title@,
            message: self.message@,
        }
    }
}

/// What a list of notifications says.
pub open spec fn notification_views(list: Seq<Notification>) -> Seq<NotificationView> {
    list.map_values(|n: Notification| n@)
}

impl Notification {
    /// A notification without an identifier, detected at `timestamp`.
    pub fn at(app_name: &str, title: &str, message: &str, timestamp: Timestamp) -> (r: Notification)
        ensures
            r@ == (NotificationView {
                id: None,
                app_name: app_name@,
                title: title@,
                message: message@,
            }),
            r.timestamp == timestamp,
    {
        Notification {
            id: None,
            app_name: app_name.to_string(),
            title: title.to_string(),
            message: message.to_string(),
            timestamp,
        }
    }

    /// A notification without an identifier, detected now.
    pub fn new(app_name: &str, title: &str, message: &str) -> (r: Notification)
        ensures
            r@ == (NotificationView {
                id: None,
                app_name: app_name@,
                title: title@,
                message: message@,
            }),
            r.timestamp.from_clock(),
    {
        Notification::at(app_name, title, message, Timestamp::now())
    }

    /// The same notification with an identifier. An empty one counts as none.
    pub fn with_id(self, id: &str) -> (r: Notification)
        ensures
            r@ == (NotificationView {
                id: if id@.len() == 0 {
                    None
                } else {
                    Some(id@)
                },
                ..self@
            }),
            r.timestamp == self.timestamp,
    {
        Notification {
            id: if id.is_empty() {
                None
            } else {
                Some(id.to_string())
            },
            app_name: self.app_name,
            title: self.title,
            message: self.message,
            timestamp: self.timestamp,
        }
    }

    /// The content fingerprint,
    /// `SHA256(app_name + "\0" + title + "\0" + message)`.
    pub fn fingerprint(&self) -> (r: String)
        ensures
            r@ == self@.print(),
    {
        fingerprint(self.app_name.as_str(), self.title.as_str(), self.message.as_str())
    }
}

impl Clone for Notification {
    fn clone(&self) -> (r: Notification)
        ensures
            r@ == self@,
            r.timestamp == self.timestamp,
    {
        Notification {
            id: copy_opt(&self.id),
            app_name: self.app_name.clone(),
            title: self.title.clone(),
            message: self.message.clone(),
            timestamp: self.timestamp,
        }
    }
}

/// The fingerprint covers the content alone: neither the identifier nor the
/// time of detection changes it.
pub proof fn law_fingerprint_covers_content_only(a: Notification, b: Notification)
    requires
        a.app_name@ == b.app_name@,
        a.title@ == b.title@,
        a.message@ == b.message@,
    ensures
        a@.print() == b@.print(),
{
}

/// Content that differs has other fingerprints, unless two inputs of the hash
/// collide: notifications whose names and titles hold no zero character give
/// the hash the same input only where they say the same.
pub proof fn law_fingerprint_input_tells_content_apart(a: NotificationView, b: NotificationView)
    requires
        !a.app_name.contains('\0') && !a.title.contains('\0'),
        !b.app_name.contains('\0') && !b.title.contains('\0'),
        dedup::preimage(a.app_name, a.title, a.message) == dedup::preimage(
            b.app_name,
            b.title,
            b.message,
        ),
    ensures
        a == (NotificationView { id: a.id, ..b }),
{
    dedup::law_preimage_separates_fields(
        a.app_name,
        a.title,
        a.message,
        b.app_name,
        b.title,
        b.message,
    );
}

/// What identifies a notification is the fingerprint of its application, its
/// title and its message.
pub proof fn law_fingerprint_is_that_of_the_content(n: NotificationView, id: Option<Seq<char>>)
    ensures
        n.print() == dedup::fingerprint_of(n.app_name, n.title, n.message),
        n.print() == (NotificationView { id, ..n }).print(),
{
}

/// What a notification says is what each of its fields holds, and a row of them
/// says what each says, in their order.
pub proof fn law_notifications_say_what_they_hold(n: Notification, row: Seq<Notification>)
    ensures
        n@.id == text::opt_text(n.id),
        n@.app_name == n.app_name@,
        n@.title == n.title@,
        n@.message == n.message@,
        notification_views(row).len() == row.len(),
        forall|i: int| 0 <= i < row.len() ==> #[trigger] notification_views(row)[i] == row[i]@,
{
}

} // verus!

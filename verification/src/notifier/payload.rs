//! The JSON message that ntfy receives.
use vstd::prelude::*;

use crate::text::owned;

verus! {

/// A button of the notification.
#[derive(Debug, Clone, PartialEq, Eq)]
pub struct NtfyAction {
    pub action: String,
    pub label: String,
    pub url: String,
    pub clear: Option<bool>,
}

/// The value of an [`NtfyAction`].
pub struct ActionView {
    pub action: Seq<char>,
    pub label: Seq<char>,
    pub url: Seq<char>,
    pub clear: Option<bool>,
}

impl View for NtfyAction {
    type V = ActionView;

    open spec fn view(&self) -> ActionView {
        ActionView { action: self.action@, label: self.label@, url: self.url@, clear: self.clear }
    }
}

impl DeepView for NtfyAction {
    type V = ActionView;

    open spec fn deep_view(&self) -> ActionView {
        self@
    }
}

/// The notification: topic, title, Markdown message, priority, tags,
/// click target, attachment and at most three buttons.
#[derive(Debug, Clone)]
pub struct NtfyPayload {
    pub topic: String,
    pub title: String,
    pub message: String,
    pub priority: u8,
    pub tags: Vec<String>,
    pub click: Option<String>,
    pub attach: Option<String>,
    pub filename: Option<String>,
    pub actions: Vec<NtfyAction>,
    pub markdown: bool,
}

/// The value of an [`NtfyPayload`].
pub struct PayloadView {
    pub topic: Seq<char>,
    pub title: Seq<char>,
    pub message: Seq<char>,
    pub priority: u8,
    pub tags: Seq<Seq<char>>,
    pub click: Option<Seq<char>>,
    pub attach: Option<Seq<char>>,
    pub filename: Option<Seq<char>>,
    pub actions: Seq<ActionView>,
    pub markdown: bool,
}

impl View for NtfyPayload {
    type V = PayloadView;

    open spec fn view(&self) -> PayloadView {
        PayloadView {
            topic: self.topic@,
            title: self.title@,
            message: self.message@,
            priority: self.priority,
            tags: self.tags.deep_view(),
            click: self.click.deep_view(),
            attach: self.attach.deep_view(),
            filename: self.filename.deep_view(),
            actions: self.actions.deep_view(),
            markdown: self.markdown,
        }
    }
}

/// The most buttons a notification carries.
pub const MAX_ACTIONS: usize = 3;

/// A fresh payload: default priority 3, Markdown on, nothing else set.
pub open spec fn new_payload_spec(topic: Seq<char>, title: Seq<char>, message: Seq<char>) -> PayloadView {
    PayloadView {
        topic,
        title,
        message,
        priority: 3,
        tags: seq![],
        click: None,
        attach: None,
        filename: None,
        actions: seq![],
        markdown: true,
    }
}

/// `priority` brought into the range 1..=5.
pub open spec fn clamp_priority(priority: u8) -> u8 {
    if priority < 1 {
        1
    } else if priority > 5 {
        5
    } else {
        priority
    }
}

/// `p` with its priority set to `clamp_priority(priority)`.
pub open spec fn with_priority_spec(p: PayloadView, priority: u8) -> PayloadView {
    PayloadView { priority: clamp_priority(priority), ..p }
}

/// `p` with its click target set.
pub open spec fn with_click_spec(p: PayloadView, url: Seq<char>) -> PayloadView {
    PayloadView { click: Some(url), ..p }
}

/// `p` with its attachment and its file name set.
pub open spec fn with_attachment_spec(p: PayloadView, url: Seq<char>, filename: Option<Seq<char>>) -> PayloadView {
    PayloadView { attach: Some(url), filename, ..p }
}

/// `p` with a "view" button added, unless it already has three.
pub open spec fn add_action_spec(p: PayloadView, label: Seq<char>, url: Seq<char>) -> PayloadView {
    if p.actions.len() < MAX_ACTIONS {
        PayloadView {
            actions: p.actions.push(ActionView { action: "view"@, label, url, clear: Some(false) }),
            ..p
        }
    } else {
        p
    }
}

/// The priority of a payload set through `with_priority` is between 1 and 5.
pub proof fn law_priority_in_range(p: PayloadView, priority: u8)
    ensures
        1 <= with_priority_spec(p, priority).priority <= 5,
        1 <= priority <= 5 ==> with_priority_spec(p, priority).priority == priority,
{
}

/// Adding a button never takes a payload past three buttons, and keeps the
/// buttons it had.
pub proof fn law_actions_bounded(p: PayloadView, label: Seq<char>, url: Seq<char>)
    requires
        p.actions.len() <= MAX_ACTIONS,
    ensures
        add_action_spec(p, label, url).actions.len() <= MAX_ACTIONS,
        add_action_spec(p, label, url).actions.subrange(0, p.actions.len() as int) == p.actions,
{
    assert(add_action_spec(p, label, url).actions.subrange(0, p.actions.len() as int) =~= p.actions);
}

impl NtfyPayload {
    /// A payload for `topic` with `title` and `message`, priority 3 and
    /// Markdown on.
    pub fn new(topic: &str, title: &str, message: &str) -> (r: NtfyPayload)
        ensures
            r@ == new_payload_spec(topic@, title@, message@),
    {
        let r = NtfyPayload {
            topic: owned(topic),
            title: owned(title),
            message: owned(message),
            priority: 3,
            tags: Vec::new(),
            click: None,
            attach: None,
            filename: None,
            actions: Vec::new(),
            markdown: true,
        };
        assert(r@.tags =~= Seq::<Seq<char>>::empty());
        assert(r@.actions =~= Seq::<ActionView>::empty());
        r
    }

    /// Sets the priority, brought into 1..=5.
    pub fn with_priority(self, priority: u8) -> (r: NtfyPayload)
        ensures
            r@ == with_priority_spec(self@, priority),
    {
        let mut p = self;
        p.priority = if priority < 1 {
            1
        } else if priority > 5 {
            5
        } else {
            priority
        };
        p
    }

    /// Sets the tags.
    pub fn with_tags(self, tags: Vec<String>) -> (r: NtfyPayload)
        ensures
            r@ == (PayloadView { tags: tags.deep_view(), ..self@ }),
    {
        let mut p = self;
        p.tags = tags;
        p
    }

    /// Sets the address that a click on the notification opens.
    pub fn with_click(self, url: &str) -> (r: NtfyPayload)
        ensures
            r@ == with_click_spec(self@, url@),
    {
        let mut p = self;
        p.click = Some(owned(url));
        p
    }

    /// Sets the attached file and its name.
    pub fn with_attachment(self, url: &str, filename: Option<&str>) -> (r: NtfyPayload)
        ensures
            r@ == with_attachment_spec(
                self@,
                url@,
                match filename {
                    Some(f) => Some(f@),
                    None => None,
                },
            ),
    {
        let mut p = self;
        p.attach = Some(owned(url));
        p.filename = match filename {
            Some(f) => Some(owned(f)),
            None => None,
        };
        p
    }

    /// Adds a button that opens `url`, unless there are already three.
    pub fn add_action(self, label: &str, url: &str) -> (r: NtfyPayload)
        ensures
            r@ == add_action_spec(self@, label@, url@),
    {
        let mut p = self;
        if p.actions.len() < MAX_ACTIONS {
            let ghost before = p.actions.deep_view();
            let action = NtfyAction {
                action: owned("view"),
                label: owned(label),
                url: owned(url),
                clear: Some(false),
            };
            p.actions.push(action);
            assert(p.actions.deep_view() =~= before.push(action@));
        }
        p
    }
}

} // verus!

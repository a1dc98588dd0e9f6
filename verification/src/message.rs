//! The events that a caller submits, and what each of them stands for.

use crate::value::{Entries, Object, Value, ValueView};
use vstd::prelude::*;

verus! {

/// The seven kinds of message.
#[derive(Clone, Copy, Debug, PartialEq, Eq, Structural)]
pub enum Kind {
    Identify,
    Track,
    Page,
    Screen,
    Group,
    Alias,
    Batch,
}

/// Ties a user to their traits.
#[derive(Clone, Debug, PartialEq, Eq)]
pub struct Identify {
    pub user_id: Option<String>,
    pub anonymous_id: Option<String>,
    pub traits: Option<Value>,
    pub original_timestamp: Option<String>,
    pub context: Option<Object>,
    pub integrations: Option<Object>,
}

/// Records an action of a user.
#[derive(Clone, Debug, PartialEq, Eq)]
pub struct Track {
    pub user_id: Option<String>,
    pub anonymous_id: Option<String>,
    pub event: String,
    pub properties: Option<Value>,
    pub original_timestamp: Option<String>,
    pub context: Option<Object>,
    pub integrations: Option<Object>,
}

/// Records that a user saw a page of a website.
#[derive(Clone, Debug, PartialEq, Eq)]
pub struct Page {
    pub user_id: Option<String>,
    pub anonymous_id: Option<String>,
    pub name: String,
    pub properties: Option<Value>,
    pub original_timestamp: Option<String>,
    pub context: Option<Object>,
    pub integrations: Option<Object>,
}

/// Records that a user saw a screen of a mobile application.
#[derive(Clone, Debug, PartialEq, Eq)]
pub struct Screen {
    pub user_id: Option<String>,
    pub anonymous_id: Option<String>,
    pub name: String,
    pub properties: Option<Value>,
    pub original_timestamp: Option<String>,
    pub context: Option<Object>,
    pub integrations: Option<Object>,
}

/// Ties a user to a group.
#[derive(Clone, Debug, PartialEq, Eq)]
pub struct Group {
    pub user_id: Option<String>,
    pub anonymous_id: Option<String>,
    pub group_id: String,
    pub traits: Option<Value>,
    pub original_timestamp: Option<String>,
    pub context: Option<Object>,
    pub integrations: Option<Object>,
}

/// Merges two identities of one user.
#[derive(Clone, Debug, PartialEq, Eq)]
pub struct Alias {
    pub user_id: Option<String>,
    pub anonymous_id: Option<String>,
    pub previous_id: String,
    pub traits: Option<Value>,
    pub original_timestamp: Option<String>,
    pub context: Option<Object>,
    pub integrations: Option<Object>,
}

/// An event that a batch can hold: any event but a batch.
#[derive(Clone, Debug, PartialEq, Eq)]
pub enum BatchMessage {
    Identify(Identify),
    Track(Track),
    Page(Page),
    Screen(Screen),
    Group(Group),
    Alias(Alias),
}

/// Several events, in order, submitted in one request.
#[derive(Clone, Debug, PartialEq, Eq)]
pub struct Batch {
    pub batch: Vec<BatchMessage>,
    pub original_timestamp: Option<String>,
    pub context: Option<Object>,
    pub integrations: Option<Object>,
}

/// An event as the caller submits it.
#[derive(Clone, Debug, PartialEq, Eq)]
pub enum Message {
    Identify(Identify),
    Track(Track),
    Page(Page),
    Screen(Screen),
    Group(Group),
    Alias(Alias),
    Batch(Batch),
}

/// What sets one kind of single event apart from the others.
pub enum Detail {
    Identify { traits: Option<ValueView> },
    Track { event: Seq<char>, properties: Option<ValueView> },
    Page { name: Seq<char>, properties: Option<ValueView> },
    Screen { name: Seq<char>, properties: Option<ValueView> },
    Group { group_id: Seq<char>, traits: Option<ValueView> },
    Alias { previous_id: Seq<char>, traits: Option<ValueView> },
}

/// What a single event stands for: the fields that all six kinds share, and
/// the detail of its kind.
pub struct EventView {
    pub user_id: Option<Seq<char>>,
    pub anonymous_id: Option<Seq<char>>,
    pub detail: Detail,
    pub original_timestamp: Option<Seq<char>>,
    pub context: Option<Entries>,
    pub integrations: Option<Entries>,
}

/// What a batch stands for.
pub struct BatchView {
    pub batch: Seq<EventView>,
    pub original_timestamp: Option<Seq<char>>,
    pub context: Option<Entries>,
    pub integrations: Option<Entries>,
}

/// What a message stands for.
pub enum MessageView {
    Event(EventView),
    Batch(BatchView),
}

/// The characters of a string that may be absent.
pub open spec fn opt_text(text: Option<String>) -> Option<Seq<char>> {
    match text {
        Some(t) => Some(t@),
        None => None,
    }
}

/// What a value that may be absent stands for.
pub open spec fn opt_value(value: Option<Value>) -> Option<ValueView> {
    match value {
        Some(v) => Some(v@),
        None => None,
    }
}

/// The entries of a mapping that may be absent.
pub open spec fn opt_entries(object: Option<Object>) -> Option<Entries> {
    match object {
        Some(o) => Some(o@),
        None => None,
    }
}

impl Detail {
    /// The kind of event that has this detail.
    pub open spec fn kind(self) -> Kind {
        match self {
            Detail::Identify { .. } => Kind::Identify,
            Detail::Track { .. } => Kind::Track,
            Detail::Page { .. } => Kind::Page,
            Detail::Screen { .. } => Kind::Screen,
            Detail::Group { .. } => Kind::Group,
            Detail::Alias { .. } => Kind::Alias,
        }
    }
}

impl EventView {
    /// The kind of the event.
    pub open spec fn kind(self) -> Kind {
        self.detail.kind()
    }
}

impl MessageView {
    /// The kind of the message.
    pub open spec fn kind(self) -> Kind {
        match self {
            MessageView::Event(e) => e.kind(),
            MessageView::Batch(_) => Kind::Batch,
        }
    }

    /// Whether the message names a user: by a user id, an anonymous id, or
    /// both. A batch names none.
    pub open spec fn has_identity(self) -> bool {
        match self {
            MessageView::Event(e) => e.user_id is Some || e.anonymous_id is Some,
            MessageView::Batch(_) => false,
        }
    }

    /// The context of the message itself, if it has one. For a batch this is
    /// the context of the batch, not of the events in it.
    pub open spec fn context(self) -> Option<Entries> {
        match self {
            MessageView::Event(e) => e.context,
            MessageView::Batch(b) => b.context,
        }
    }
}

impl View for Identify {
    type V = EventView;

    open spec fn view(&self) -> EventView {
        EventView {
            user_id: opt_text(self.user_id),
            anonymous_id: opt_text(self.anonymous_id),
            detail: Detail::Identify { traits: opt_value(self.traits) },
            original_timestamp: opt_text(self.original_timestamp),
            context: opt_entries(self.context),
            integrations: opt_entries(self.integrations),
        }
    }
}

impl View for Track {
    type V = EventView;

    open spec fn view(&self) -> EventView {
        EventView {
            user_id: opt_text(self.user_id),
            anonymous_id: opt_text(self.anonymous_id),
            detail: Detail::Track { event: self.event@, properties: opt_value(self.properties) },
            original_timestamp: opt_text(self.original_timestamp),
            context: opt_entries(self.context),
            integrations: opt_entries(self.integrations),
        }
    }
}

impl View for Page {
    type V = EventView;

    open spec fn view(&self) -> EventView {
        EventView {
            user_id: opt_text(self.user_id),
            anonymous_id: opt_text(self.anonymous_id),
            detail: Detail::Page { name: self.name@, properties: opt_value(self.properties) },
            original_timestamp: opt_text(self.original_timestamp),
            context: opt_entries(self.context),
            integrations: opt_entries(self.integrations),
        }
    }
}

impl View for Screen {
    type V = EventView;

    open spec fn view(&self) -> EventView {
        EventView {
            user_id: opt_text(self.user_id),
            anonymous_id: opt_text(self.anonymous_id),
            detail: Detail::Screen { name: self.name@, properties: opt_value(self.properties) },
            original_timestamp: opt_text(self.original_timestamp),
            context: opt_entries(self.context),
            integrations: opt_entries(self.integrations),
        }
    }
}

impl View for Group {
    type V = EventView;

    open spec fn view(&self) -> EventView {
        EventView {
            user_id: opt_text(self.user_id),
            anonymous_id: opt_text(self.anonymous_id),
            detail: Detail::Group { group_id: self.group_id@, traits: opt_value(self.traits) },
            original_timestamp: opt_text(self.original_timestamp),
            context: opt_entries(self.context),
            integrations: opt_entries(self.integrations),
        }
    }
}

impl View for Alias {
    type V = EventView;

    open spec fn view(&self) -> EventView {
        EventView {
            user_id: opt_text(self.user_id),
            anonymous_id: opt_text(self.anonymous_id),
            detail: Detail::Alias {
                previous_id: self.previous_id@,
                traits: opt_value(self.traits),
            },
            original_timestamp: opt_text(self.original_timestamp),
            context: opt_entries(self.context),
            integrations: opt_entries(self.integrations),
        }
    }
}

impl View for BatchMessage {
    type V = EventView;

    open spec fn view(&self) -> EventView {
        match self {
            BatchMessage::Identify(e) => e@,
            BatchMessage::Track(e) => e@,
            BatchMessage::Page(e) => e@,
            BatchMessage::Screen(e) => e@,
            BatchMessage::Group(e) => e@,
            BatchMessage::Alias(e) => e@,
        }
    }
}

impl View for Batch {
    type V = BatchView;

    open spec fn view(&self) -> BatchView {
        BatchView {
            batch: Seq::new(self.batch@.len(), |i: int| self.batch@[i]@),
            original_timestamp: opt_text(self.original_timestamp),
            context: opt_entries(self.context),
            integrations: opt_entries(self.integrations),
        }
    }
}

impl View for Message {
    type V = MessageView;

    open spec fn view(&self) -> MessageView {
        match self {
            Message::Identify(e) => MessageView::Event(e@),
            Message::Track(e) => MessageView::Event(e@),
            Message::Page(e) => MessageView::Event(e@),
            Message::Screen(e) => MessageView::Event(e@),
            Message::Group(e) => MessageView::Event(e@),
            Message::Alias(e) => MessageView::Event(e@),
            Message::Batch(b) => MessageView::Batch(b@),
        }
    }
}

impl Default for Identify {
    /// An identify event with every field absent.
    fn default() -> (empty: Identify)
        ensures
            empty.user_id is None,
            empty.anonymous_id is None,
            empty.traits is None,
            empty.original_timestamp is None,
            empty.context is None,
            empty.integrations is None,
    {
        Identify {
            user_id: None,
            anonymous_id: None,
            traits: None,
            original_timestamp: None,
            context: None,
            integrations: None,
        }
    }
}

impl Default for Track {
    /// A track event with an empty name and every other field absent.
    fn default() -> (empty: Track)
        ensures
            empty.user_id is None,
            empty.anonymous_id is None,
            empty.event@ == Seq::<char>::empty(),
            empty.properties is None,
            empty.original_timestamp is None,
            empty.context is None,
            empty.integrations is None,
    {
        Track {
            user_id: None,
            anonymous_id: None,
            event: String::new(),
            properties: None,
            original_timestamp: None,
            context: None,
            integrations: None,
        }
    }
}

impl Default for Page {
    /// A page event with an empty name and every other field absent.
    fn default() -> (empty: Page)
        ensures
            empty.user_id is None,
            empty.anonymous_id is None,
            empty.name@ == Seq::<char>::empty(),
            empty.properties is None,
            empty.original_timestamp is None,
            empty.context is None,
            empty.integrations is None,
    {
        Page {
            user_id: None,
            anonymous_id: None,
            name: String::new(),
            properties: None,
            original_timestamp: None,
            context: None,
            integrations: None,
        }
    }
}

impl Default for Screen {
    /// A screen event with an empty name and every other field absent.
    fn default() -> (empty: Screen)
        ensures
            empty.user_id is None,
            empty.anonymous_id is None,
            empty.name@ == Seq::<char>::empty(),
            empty.properties is None,
            empty.original_timestamp is None,
            empty.context is None,
            empty.integrations is None,
    {
        Screen {
            user_id: None,
            anonymous_id: None,
            name: String::new(),
            properties: None,
            original_timestamp: None,
            context: None,
            integrations: None,
        }
    }
}

impl Default for Group {
    /// A group event with an empty group id and every other field absent.
    fn default() -> (empty: Group)
        ensures
            empty.user_id is None,
            empty.anonymous_id is None,
            empty.group_id@ == Seq::<char>::empty(),
            empty.traits is None,
            empty.original_timestamp is None,
            empty.context is None,
            empty.integrations is None,
    {
        Group {
            user_id: None,
            anonymous_id: None,
            group_id: String::new(),
            traits: None,
            original_timestamp: None,
            context: None,
            integrations: None,
        }
    }
}

impl Default for Alias {
    /// An alias event with an empty previous id and every other field absent.
    fn default() -> (empty: Alias)
        ensures
            empty.user_id is None,
            empty.anonymous_id is None,
            empty.previous_id@ == Seq::<char>::empty(),
            empty.traits is None,
            empty.original_timestamp is None,
            empty.context is None,
            empty.integrations is None,
    {
        Alias {
            user_id: None,
            anonymous_id: None,
            previous_id: String::new(),
            traits: None,
            original_timestamp: None,
            context: None,
            integrations: None,
        }
    }
}

impl Default for Batch {
    /// A batch of no events, with every other field absent.
    fn default() -> (empty: Batch)
        ensures
            empty.batch@ == Seq::<BatchMessage>::empty(),
            empty.original_timestamp is None,
            empty.context is None,
            empty.integrations is None,
    {
        Batch { batch: Vec::new(), original_timestamp: None, context: None, integrations: None }
    }
}

impl Message {
    /// The kind of the message.
    pub fn kind(&self) -> (kind: Kind)
        ensures
            kind == self@.kind(),
    {
        match self {
            Message::Identify(_) => Kind::Identify,
            Message::Track(_) => Kind::Track,
            Message::Page(_) => Kind::Page,
            Message::Screen(_) => Kind::Screen,
            Message::Group(_) => Kind::Group,
            Message::Alias(_) => Kind::Alias,
            Message::Batch(_) => Kind::Batch,
        }
    }
}

} // verus!

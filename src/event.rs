use vstd::prelude::*;

verus! {

/// The name of the synthetic interaction that forces the first render.
pub const RENDER_EVENT_CODE: &'static str = "koke-rust-render";

/// An interaction raised by the host.
#[derive(Debug)]
pub enum Event {
    Click,
    /// A change of an input's value; the payload is absent when the
    /// origin carries no value.
    Change(Option<String>),
    KeyDown,
    /// The synthetic render request used at mount time.
    RustRender,
}

/// The host name of an interaction kind.
pub open spec fn event_name(e: Event) -> Seq<char> {
    match e {
        Event::Click => "click"@,
        Event::Change(_) => "change"@,
        Event::KeyDown => "keydown"@,
        Event::RustRender => RENDER_EVENT_CODE@,
    }
}

/// The interaction that a host event of name `kind` stands for; `value` is
/// the origin's current input value, if the origin is an input.
pub open spec fn event_of(kind: Seq<char>, value: Option<String>) -> Option<Event> {
    if kind == "click"@ {
        Some(Event::Click)
    } else if kind == "change"@ {
        match value {
            Some(v) => Some(Event::Change(Some(v))),
            None => None,
        }
    } else if kind == "keydown"@ {
        Some(Event::KeyDown)
    } else if kind == RENDER_EVENT_CODE@ {
        Some(Event::RustRender)
    } else {
        None
    }
}

/// The payload that a change interaction carries, as a sequence.
pub open spec fn payload_of(e: Event) -> Option<Seq<char>> {
    match e {
        Event::Change(Some(s)) => Some(s@),
        _ => None,
    }
}

impl Event {
    /// Reads a host event given by its name and, for inputs, their value.
    pub fn from_event(kind: &str, value: Option<String>) -> (r: Option<Event>)
        ensures
            r == event_of(kind@, value),
    {
        let k = kind.to_owned();
        if k == "click".to_owned() {
            Some(Event::Click)
        } else if k == "change".to_owned() {
            match value {
                Some(v) => Some(Event::Change(Some(v))),
                None => None,
            }
        } else if k == "keydown".to_owned() {
            Some(Event::KeyDown)
        } else if k == RENDER_EVENT_CODE.to_owned() {
            Some(Event::RustRender)
        } else {
            None
        }
    }

    /// The host name of this interaction's kind.
    pub fn to_str(&self) -> (r: &str)
        ensures
            r@ == event_name(*self),
    {
        match self {
            Event::Click => "click",
            Event::Change(_) => "change",
            Event::KeyDown => "keydown",
            Event::RustRender => RENDER_EVENT_CODE,
        }
    }

    /// Every interaction kind that the runtime listens for, once each.
    pub fn all_events() -> (r: Vec<Event>)
        ensures
            r@ == seq![Event::Click, Event::Change(None), Event::KeyDown, Event::RustRender],
    {
        vec![Event::Click, Event::Change(None), Event::KeyDown, Event::RustRender]
    }
}

} // verus!

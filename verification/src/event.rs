//! What happens to the program, from the terminal, the clock and the actor.

use crate::app::App;
use crate::input::{after_key, ComposerView, KeyEvent};
use crate::model::AppModel;
use crate::telegram::{TgEvent, TgEventView};
use vstd::prelude::*;

verus! {

/// Something that happens to the program.
#[derive(Debug)]
pub enum Event {
    Key(KeyEvent),
    Tick,
    Resize(u16, u16),
    Tg(TgEvent),
}

/// The contents of an [`Event`].
#[verifier::ext_equal]
pub enum EventView {
    Key(KeyEvent),
    Tick,
    Resize(u16, u16),
    Tg(TgEventView),
}

impl View for Event {
    type V = EventView;

    open spec fn view(&self) -> EventView {
        match *self {
            Event::Key(key) => EventView::Key(key),
            Event::Tick => EventView::Tick,
            Event::Resize(w, h) => EventView::Resize(w, h),
            Event::Tg(ev) => EventView::Tg(ev@),
        }
    }
}

/// What a terminal reports.
#[derive(Debug, Clone, Copy, PartialEq, Eq, Structural)]
pub enum TerminalEvent {
    /// A key that went down.
    Press(KeyEvent),
    /// A key that is held or was let go.
    HoldOrRelease(KeyEvent),
    Resize(u16, u16),
    /// The mouse, pasted text, or a change of the window's focus.
    Other,
}

/// The event that a report of the terminal makes; only keys that go down and
/// changes of the size make one.
pub fn from_terminal(report: TerminalEvent) -> (ev: Option<Event>)
    ensures
        match report {
            TerminalEvent::Press(key) => ev == Some(Event::Key(key)),
            TerminalEvent::Resize(w, h) => ev == Some(Event::Resize(w, h)),
            _ => ev is None,
        },
{
    match report {
        TerminalEvent::Press(key) => Some(Event::Key(key)),
        TerminalEvent::Resize(w, h) => Some(Event::Resize(w, h)),
        _ => None,
    }
}

impl AppModel {
    /// What an event does; `typed` is what the composer would make of it if
    /// it is a key.
    pub open spec fn stepped(self, ev: EventView, now: u64, typed: ComposerView) -> AppModel {
        match ev {
            EventView::Key(key) => self.key_pressed(key, now, typed),
            EventView::Tick => self.ticked(now),
            EventView::Resize(_, _) => self,
            EventView::Tg(ev) => self.told(ev, now),
        }
    }
}

impl App {
    /// Whether the numbers that an event makes grow still fit.
    pub fn can_step(&self, ev: &Event, now: u64) -> (b: bool)
        ensures
            b <==> (ev@ matches EventView::Tg(tg) ==> self@.can_take(tg, now)),
    {
        match ev {
            Event::Tg(tg) => self.can_apply(tg, now),
            _ => true,
        }
    }

    /// Takes an event in.
    pub fn step(&mut self, ev: Event, now: u64)
        requires
            ev@ matches EventView::Tg(tg) ==> old(self)@.can_take(tg, now),
        ensures
            ev matches Event::Key(key) ==> final(self)@ == old(self)@.stepped(
                ev@,
                now,
                old(self).input.typed(key),
            ),
            ev !is Key ==> forall|typed: ComposerView|
                final(self)@ == #[trigger] old(self)@.stepped(ev@, now, typed),
            (ev matches Event::Key(key) ==> old(self)@.leaves_composer(key))
                ==> final(self).input == old(self).input,
            (ev matches Event::Key(key) && old(self)@.types(key)) ==> final(self).input.area()
                == after_key(old(self).input.area(), ev->Key_0),
            old(self)@.settled() ==> final(self)@.settled(),
            old(self)@.cursors_in_range() && old(self)@.picker_is_fresh() && (
            old(self)@.messages.len() == 0 ==> !(ev@ matches EventView::Tg(
                TgEventView::OlderMessagesLoaded { .. },
            ))) ==> final(self)@.cursors_in_range(),
    {
        match ev {
            Event::Key(key) => self.on_key(key, now),
            Event::Tick => self.on_tick(now),
            Event::Resize(_, _) => {},
            Event::Tg(tg) => self.apply_event(tg, now),
        }
    }
}

} // verus!

//! Input events and their reduction to one movement command per tick.

use vstd::prelude::*;
use crate::components::Direction;

verus! {

/// The keys the simulation tells apart.
#[derive(Debug, Clone, Copy, PartialEq, Eq, Structural)]
pub enum Key {
    Up,
    Down,
    Left,
    Right,
    Escape,
    Other,
}

/// One discrete event of the input source.
#[derive(Debug, Clone, Copy, PartialEq, Eq, Structural)]
pub enum InputEvent {
    /// A key went down; `repeat` is set when the event is an auto-repeat.
    KeyDown { key: Key, repeat: bool },
    /// A key went up.
    KeyUp { key: Key, repeat: bool },
    /// The user asked to leave.
    Quit,
    /// Anything else, such as a window event.
    Other,
}

/// What the player asks of the entities that the keyboard steers.
#[derive(Debug, Clone, Copy, PartialEq, Eq, Structural)]
pub enum MovementCommand {
    Stop,
    Move(Direction),
}

/// The direction a key stands for, if it is a direction key.
pub open spec fn key_direction(key: Key) -> Option<Direction> {
    match key {
        Key::Up => Some(Direction::Up),
        Key::Down => Some(Direction::Down),
        Key::Left => Some(Direction::Left),
        Key::Right => Some(Direction::Right),
        _ => None,
    }
}

/// The command one event gives rise to: a direction key going down, not as
/// a repeat, asks to move that way; a direction key going up asks to stop;
/// every other event asks nothing.
pub open spec fn command_of(event: InputEvent) -> Option<MovementCommand> {
    match event {
        InputEvent::KeyDown { key, repeat } => match key_direction(key) {
            Some(direction) if !repeat => Some(MovementCommand::Move(direction)),
            _ => None,
        },
        InputEvent::KeyUp { key, repeat } => match key_direction(key) {
            Some(_) if !repeat => Some(MovementCommand::Stop),
            _ => None,
        },
        _ => None,
    }
}

/// The command of a tick: that of the last event that gives one.
pub open spec fn reduced(events: Seq<InputEvent>) -> Option<MovementCommand>
    decreases events.len(),
{
    if events.len() == 0 {
        None
    } else {
        match command_of(events.last()) {
            Some(command) => Some(command),
            None => reduced(events.drop_last()),
        }
    }
}

/// Whether the event ends the run: a quit request, or the escape key going
/// down.
pub open spec fn terminates(event: InputEvent) -> bool {
    match event {
        InputEvent::Quit => true,
        InputEvent::KeyDown { key, repeat } => key == Key::Escape,
        _ => false,
    }
}

/// The direction a key stands for, if it is a direction key.
pub fn direction_of_key(key: Key) -> (direction: Option<Direction>)
    ensures
        direction == key_direction(key),
{
    match key {
        Key::Up => Some(Direction::Up),
        Key::Down => Some(Direction::Down),
        Key::Left => Some(Direction::Left),
        Key::Right => Some(Direction::Right),
        _ => None,
    }
}

/// The command one event gives rise to, if any.
pub fn event_command(event: InputEvent) -> (command: Option<MovementCommand>)
    ensures
        command == command_of(event),
{
    match event {
        InputEvent::KeyDown { key, repeat } => {
            if repeat {
                None
            } else {
                match direction_of_key(key) {
                    Some(direction) => Some(MovementCommand::Move(direction)),
                    None => None,
                }
            }
        },
        InputEvent::KeyUp { key, repeat } => {
            if repeat {
                None
            } else {
                match direction_of_key(key) {
                    Some(_) => Some(MovementCommand::Stop),
                    None => None,
                }
            }
        },
        _ => None,
    }
}

/// Whether the event ends the run.
pub fn is_termination(event: InputEvent) -> (stop: bool)
    ensures
        stop == terminates(event),
{
    match event {
        InputEvent::Quit => true,
        InputEvent::KeyDown { key, repeat } => match key {
            Key::Escape => true,
            _ => false,
        },
        _ => false,
    }
}

/// Reduces the events of one tick to its command: the command of the last
/// event that gives one, or none where no event does.
pub fn translate(events: &Vec<InputEvent>) -> (command: Option<MovementCommand>)
    ensures
        command == reduced(events@),
{
    let mut command: Option<MovementCommand> = None;
    let mut i: usize = 0;
    while i < events.len()
        invariant
            0 <= i <= events@.len(),
            command == reduced(events@.take(i as int)),
        decreases events@.len() - i,
    {
        proof {
            let next = events@.take(i + 1);
            assert(next.drop_last() =~= events@.take(i as int));
            assert(next.last() == events@[i as int]);
        }
        match event_command(events[i]) {
            Some(c) => {
                command = Some(c);
            },
            None => {},
        }
        i = i + 1;
    }
    assert(events@.take(events@.len() as int) =~= events@);
    command
}

/// The last event that gives a command decides: whatever came before it in
/// the tick, the tick's command is that event's.
pub proof fn lemma_last_command_wins(events: Seq<InputEvent>, event: InputEvent)
    requires
        command_of(event) is Some,
    ensures
        reduced(events.push(event)) == command_of(event),
{
    assert(events.push(event).last() == event);
}

/// An event that gives no command leaves the tick's command as it was.
pub proof fn lemma_silent_event_keeps_command(events: Seq<InputEvent>, event: InputEvent)
    requires
        command_of(event) is None,
    ensures
        reduced(events.push(event)) == reduced(events),
{
    assert(events.push(event).last() == event);
    assert(events.push(event).drop_last() =~= events);
}

/// A tick has a command exactly if one of its events gives one.
pub proof fn lemma_command_iff_some_event(events: Seq<InputEvent>)
    ensures
        reduced(events) is Some <==> exists|i: int|
            0 <= i < events.len() && command_of(#[trigger] events[i]) is Some,
    decreases events.len(),
{
    if events.len() > 0 {
        let rest = events.drop_last();
        lemma_command_iff_some_event(rest);
        if command_of(events.last()) is Some {
            assert(command_of(events[events.len() - 1]) is Some);
        } else {
            if reduced(rest) is Some {
                let i = choose|i: int| 0 <= i < rest.len() && command_of(#[trigger] rest[i]) is Some;
                assert(events[i] == rest[i]);
            }
            if exists|i: int| 0 <= i < events.len() && command_of(#[trigger] events[i]) is Some {
                let i = choose|i: int|
                    0 <= i < events.len() && command_of(#[trigger] events[i]) is Some;
                assert(i < rest.len());
                assert(rest[i] == events[i]);
            }
        }
    }
}

} // verus!

//! One peer's side of a game: what it remembers between events, and what
//! each event does to it. Whoever runs the loop feeds in keys and
//! datagrams, and carries out what comes back.
use vstd::prelude::*;
use crate::control::{
    calculate_direction, chase, direction_from_key, fold_key, intent_after, key_direction, KEY_LEFT,
};
use crate::game::{FoodCheck, Game, TickReport, MODE};
use crate::geometry::{DIRECTION, Field};
use crate::protocol::{
    apply_frame, build_frame, can_snapshot, decode_command, parse, shown, snapshot, ClientUpdate,
    CommandView, COMMANDS,
};
use crate::render::RenderOp;
use crate::snake::Snake;

verus! {

/// The code of the key that ends the game.
pub const KEY_QUIT: i32 = 113;

/// One peer's side of a game.
#[derive(Clone, Debug, PartialEq, Eq)]
pub struct Session {
    pub game: Game,
    pub snakes: Vec<Snake>,
    /// Whether the game is over.
    pub endgame: bool,
    /// The key code polled last.
    pub pressed_key: i32,
    /// The key code that the peer sent last.
    pub received_command: i32,
    /// Where the local player wants to go.
    pub direction_from_key: DIRECTION,
    /// Where the remote player wants to go.
    pub direction_from_udp: DIRECTION,
    /// Where the computer wants to go.
    pub direction_from_alg: DIRECTION,
}

impl Session {
    /// There are two snakes, and each has a head.
    pub open spec fn wf(&self) -> bool {
        &&& self.snakes@.len() == 2
        &&& self.snakes@[0].body@.len() > 0
        &&& self.snakes@[1].body@.len() > 0
    }

    /// Whether `after` is `before` with the first snake asked to go `first`
    /// and the second asked to go `second`.
    pub open spec fn steered(before: Session, after: Session, first: DIRECTION, second: DIRECTION) -> bool {
        &&& after.snakes@.len() == 2
        &&& after.snakes@[0] == (Snake {
            direction: before.snakes@[0].direction.turned(first),
            ..before.snakes@[0]
        })
        &&& after.snakes@[1] == (Snake {
            direction: before.snakes@[1].direction.turned(second),
            ..before.snakes@[1]
        })
        &&& after == (Session { snakes: after.snakes, ..before })
    }

    /// A session before its first event: the game is on, the last keys on
    /// both sides count as the left arrow, and everyone wants to go left.
    pub fn new(game: Game, snakes: Vec<Snake>) -> (session: Session)
        ensures
            session == (Session {
                game,
                snakes,
                endgame: false,
                pressed_key: KEY_LEFT,
                received_command: KEY_LEFT,
                direction_from_key: DIRECTION::Left,
                direction_from_udp: DIRECTION::Left,
                direction_from_alg: DIRECTION::Left,
            }),
    {
        Session {
            game,
            snakes,
            endgame: false,
            pressed_key: KEY_LEFT,
            received_command: KEY_LEFT,
            direction_from_key: DIRECTION::Left,
            direction_from_udp: DIRECTION::Left,
            direction_from_alg: DIRECTION::Left,
        }
    }

    /// Opens the game. The peer that simulates puts the first food on a
    /// cell free of both snakes and returns its drawing; without such a
    /// cell the game is over at once. The peer that watches does nothing.
    pub fn start(&mut self) -> (drawn: Option<RenderOp>)
        requires
            old(self).game.mode != MODE::Client ==> old(self).snakes@.len() >= 2,
        ensures
            old(self).game.mode == MODE::Client ==> drawn is None && *final(self) == *old(self),
            old(self).game.mode != MODE::Client ==> match drawn {
                Some(RenderOp::Food(f)) => {
                    &&& old(self).game.free_at(
                        f,
                        old(self).snakes@[0].body@,
                        old(self).snakes@[1].body@,
                    )
                    &&& *final(self) == (Session {
                        game: Game { food: f, ..old(self).game },
                        ..*old(self)
                    })
                },
                Some(_) => false,
                None => {
                    &&& forall|g: Field| !#[trigger]
                        old(self).game.free_at(
                            g,
                            old(self).snakes@[0].body@,
                            old(self).snakes@[1].body@,
                        )
                    &&& *final(self) == (Session { endgame: true, ..*old(self) })
                },
            },
    {
        match self.game.mode {
            MODE::Client => None,
            _ => {
                let drawn = self.game.init_food(&self.snakes[0].body, &self.snakes[1].body);
                if drawn.is_none() {
                    self.endgame = true;
                }
                drawn
            },
        }
    }

    /// A key was polled. An arrow becomes the local player's wish and ends
    /// the polling of this tick, which the result says.
    pub fn on_key(&mut self, code: i32) -> (arrow: bool)
        ensures
            arrow == (key_direction(code) is Some),
            *final(self) == (Session {
                pressed_key: code,
                direction_from_key: intent_after(old(self).direction_from_key, code),
                ..*old(self)
            }),
    {
        self.pressed_key = code;
        match direction_from_key(code) {
            Some(direction) => {
                self.direction_from_key = direction;
                true
            },
            None => false,
        }
    }

    /// A datagram arrived. A key code is remembered; the word that the game
    /// is over ends it; a snapshot is shown, which returns what to redraw;
    /// anything else, and whatever is no message, is dropped.
    pub fn on_datagram(&mut self, bytes: &[u8]) -> (update: Option<ClientUpdate>)
        ensures
            match parse(bytes@) {
                Ok(CommandView::Key(code)) => {
                    &&& update is None
                    &&& *final(self) == (Session { received_command: code, ..*old(self) })
                },
                Ok(CommandView::Endgame) => {
                    &&& update is None
                    &&& *final(self) == (Session { endgame: true, ..*old(self) })
                },
                Ok(CommandView::ServerData(frame)) => {
                    &&& shown(old(self).game, frame, final(self).game, update)
                    &&& *final(self) == (Session { game: final(self).game, ..*old(self) })
                },
                Ok(CommandView::Connect) => update is None && *final(self) == *old(self),
                Err(_) => update is None && *final(self) == *old(self),
            },
    {
        match decode_command(bytes) {
            Ok(COMMANDS::Key(code)) => {
                self.received_command = code;
                None
            },
            Ok(COMMANDS::Endgame) => {
                self.endgame = true;
                None
            },
            Ok(COMMANDS::ServerData(frame)) => apply_frame(&mut self.game, frame),
            Ok(COMMANDS::Connect) => None,
            Err(_) => None,
        }
    }

    /// The first datagram arrived at the watching peer, which has waited
    /// for it. A snapshot is shown, which returns what to redraw; anything
    /// else, and whatever is no message, is dropped.
    pub fn on_first_datagram(&mut self, bytes: &[u8]) -> (update: Option<ClientUpdate>)
        ensures
            match parse(bytes@) {
                Ok(CommandView::ServerData(frame)) => {
                    &&& shown(old(self).game, frame, final(self).game, update)
                    &&& *final(self) == (Session { game: final(self).game, ..*old(self) })
                },
                _ => update is None && *final(self) == *old(self),
            },
    {
        match decode_command(bytes) {
            Ok(COMMANDS::ServerData(frame)) => apply_frame(&mut self.game, frame),
            _ => None,
        }
    }

    /// Closes one round of polling: the remote wish follows the last code
    /// received, the computer's wish follows the food, and the quit key
    /// ends the game, which the result says.
    pub fn after_poll(&mut self) -> (quit: bool)
        requires
            old(self).wf(),
        ensures
            quit == (old(self).pressed_key == KEY_QUIT),
            *final(self) == (Session {
                direction_from_udp: intent_after(
                    old(self).direction_from_udp,
                    old(self).received_command,
                ),
                direction_from_alg: chase(
                    old(self).snakes@[1].direction,
                    old(self).game.food.y,
                    old(self).game.food.x,
                    old(self).snakes@[1].head().y,
                    old(self).snakes@[1].head().x,
                ),
                endgame: old(self).endgame || quit,
                ..*old(self)
            }),
    {
        self.direction_from_udp = fold_key(self.direction_from_udp, self.received_command);
        let (head_y, head_x) = self.snakes[1].get_head();
        let target_y = self.game.food.y;
        let target_x = self.game.food.x;
        self.direction_from_alg =
        calculate_direction(&self.snakes[1], &target_y, &target_x, &head_y, &head_x);
        if self.pressed_key == KEY_QUIT {
            self.endgame = true;
            true
        } else {
            false
        }
    }

    /// Acts on the wishes, and returns what to send. The watching peer
    /// sends its last key code. The server steers the first snake by the
    /// local wish and the second by the remote one, and sends a snapshot.
    /// Alone, the second snake is steered by the computer, and nothing is
    /// sent.
    pub fn turn(&mut self) -> (send: Option<COMMANDS>)
        requires
            old(self).game.mode != MODE::Client ==> old(self).snakes@.len() == 2,
            old(self).game.mode == MODE::Server ==> can_snapshot(old(self).game, old(self).snakes@),
        ensures
            match old(self).game.mode {
                MODE::Client => {
                    &&& *final(self) == *old(self)
                    &&& send matches Some(c) && c@ == CommandView::Key(old(self).pressed_key)
                },
                MODE::Server => {
                    &&& Self::steered(
                        *old(self),
                        *final(self),
                        old(self).direction_from_key,
                        old(self).direction_from_udp,
                    )
                    &&& send matches Some(c) && c@ == CommandView::ServerData(
                        snapshot(old(self).game, old(self).snakes@),
                    )
                },
                MODE::Single => {
                    &&& Self::steered(
                        *old(self),
                        *final(self),
                        old(self).direction_from_key,
                        old(self).direction_from_alg,
                    )
                    &&& send is None
                },
            },
    {
        match self.game.mode {
            MODE::Client => Some(COMMANDS::Key(self.pressed_key)),
            MODE::Server => {
                let first = self.direction_from_key;
                let second = self.direction_from_udp;
                self.snakes[0].change_direction(&first);
                self.snakes[1].change_direction(&second);
                let frame = build_frame(&mut self.game, &self.snakes);
                Some(COMMANDS::ServerData(frame))
            },
            MODE::Single => {
                let first = self.direction_from_key;
                let second = self.direction_from_alg;
                self.snakes[0].change_direction(&first);
                self.snakes[1].change_direction(&second);
                None
            },
        }
    }

    /// Simulates one tick, unless this peer only watches. The game is over
    /// when the snakes collide, or when one has eaten and no cell is free
    /// for the next food.
    pub fn simulate(&mut self) -> (report: Option<TickReport>)
        requires
            old(self).game.mode != MODE::Client ==> Game::can_tick(old(self).snakes@),
        ensures
            old(self).game.mode == MODE::Client ==> report is None && *final(self) == *old(self),
            old(self).game.mode != MODE::Client ==> {
                &&& report matches Some(t) && {
                    &&& old(self).game.ticked(
                        old(self).snakes@,
                        final(self).game,
                        final(self).snakes@,
                        t,
                    )
                    &&& final(self).endgame == (old(self).endgame || t.endgame || t.first.1
                        == FoodCheck::Exhausted || t.second.1 == FoodCheck::Exhausted)
                }
                &&& *final(self) == (Session {
                    game: final(self).game,
                    snakes: final(self).snakes,
                    endgame: final(self).endgame,
                    ..*old(self)
                })
            },
    {
        match self.game.mode {
            MODE::Client => None,
            _ => {
                let t = self.game.tick(&mut self.snakes);
                let starved = match (t.first.1, t.second.1) {
                    (FoodCheck::Exhausted, _) => true,
                    (_, FoodCheck::Exhausted) => true,
                    _ => false,
                };
                if t.endgame || starved {
                    self.endgame = true;
                }
                Some(t)
            },
        }
    }

    /// The scores at the end, this peer's first: the lengths of the two
    /// snakes, which the watching peer knows from the last snapshot, where
    /// its own snake is the second.
    pub fn final_scores(&self) -> (scores: (usize, usize))
        requires
            self.game.mode != MODE::Client ==> self.snakes@.len() >= 2,
        ensures
            self.game.mode == MODE::Client ==> scores == (
                self.game.clear2_buffer@.len() as usize,
                self.game.clear1_buffer@.len() as usize,
            ),
            self.game.mode != MODE::Client ==> scores == (
                self.snakes@[0].body@.len() as usize,
                self.snakes@[1].body@.len() as usize,
            ),
    {
        match self.game.mode {
            MODE::Client => (self.game.clear2_buffer.len(), self.game.clear1_buffer.len()),
            _ => (self.snakes[0].body.len(), self.snakes[1].body.len()),
        }
    }
}

} // verus!

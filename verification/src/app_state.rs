//! The state of the tutor and how it moves: lessons, practice texts, and the
//! LAN race game. The caller performs what these decisions call for (drawing,
//! networking) and reads the clock.

use vstd::prelude::*;
use std::collections::HashSet;
use crate::keyboard_layout::KeyboardLayout;
use crate::lessons::{LESSON_COUNT, lesson, lesson_text};
use crate::peers::Peer;
use crate::session::{Keystroke, Session, SessionModel, backspace_spec, keystroke_spec};
use crate::texts::{TEXT_COUNT, sample_text, text_content};
use crate::textutil::{dec_digits, push_decimal};
use crate::wire::{display_name_spec, listening_status, listening_status_spec, resolve_display_name};

verus! {

broadcast use vstd::std_specs::hash::group_hash_axioms;

/// The page the tutor shows.
#[derive(Debug, Clone, Copy, PartialEq, Eq, Structural)]
pub enum Mode {
    Home,
    Lesson(usize),
    Practice(usize),
    /// The LAN race; `AppState::game` holds its details.
    Game,
}

/// Where a race stands.
#[derive(Debug, Clone, Copy, PartialEq, Eq, Structural)]
pub enum GameSubState {
    Lobby,
    Countdown,
    Racing,
    Finished,
}

/// How many seconds the countdown before a race lasts.
pub const COUNTDOWN_SECS: i32 = 3;

/// One nanosecond-clock second.
pub const NANOS_PER_SEC: u64 = 1_000_000_000;

/// What the network layer reports.
pub enum NetEvent {
    /// The table of peers changed (someone came, left or renamed).
    PeersUpdated(Vec<Peer>),
    /// A peer connected and asks to race.
    IncomingRaceRequest { opponent: Peer },
    /// We accepted a race and picked its text.
    RaceStartedAsServer { text: String, opponent: Peer },
    /// The peer we invited accepted and sent the text.
    RaceStartedAsClient { text: String, opponent: Peer },
    /// How far the opponent has typed.
    OpponentProgress { position: usize, errors: usize },
    /// The opponent finished, with speed and accuracy times 100 as sent.
    OpponentFinished { wpm_x100: i64, accuracy_x100: i64 },
    /// The race connection closed.
    OpponentDisconnected,
    /// The peer we invited declined.
    InviteRejected { opponent_id: String },
    /// A status line for the lobby.
    Status(String),
}

/// What the caller must do after an event.
#[derive(Debug, Clone, Copy, PartialEq, Eq, Structural)]
pub enum NetReaction {
    Nothing,
    /// Decline the pending race request (we are busy elsewhere).
    RejectIncoming,
}

/// The multiplayer state, meaningful while the mode is `Game`.
pub struct GameSession {
    pub sub: GameSubState,
    pub peers: Vec<Peer>,
    pub network_status: String,
    pub message: String,
    pub opponent: Option<Peer>,
    /// The last opponent raced, kept after the race for a rematch.
    pub last_opponent_id: Option<String>,
    /// A peer asking us to race, until we answer.
    pub incoming_request: Option<Peer>,
    pub text_len: usize,
    pub countdown_started_at: Option<u64>,
    pub countdown_secs: i32,
    pub opponent_pos: usize,
    pub opponent_errors: usize,
    pub opponent_finished: bool,
    pub opponent_wpm_x100: i64,
    pub opponent_accuracy_x100: i64,
}

impl GameSession {
    /// Whether this is the state of a lobby that nothing has happened in.
    pub open spec fn is_fresh(&self) -> bool {
        &&& self.sub == GameSubState::Lobby
        &&& self.peers@.len() == 0
        &&& self.network_status@.len() == 0
        &&& self.message@.len() == 0
        &&& self.opponent is None
        &&& self.last_opponent_id is None
        &&& self.incoming_request is None
        &&& self.text_len == 0
        &&& self.countdown_started_at is None
        &&& self.countdown_secs == 0
        &&& self.opponent_pos == 0
        &&& self.opponent_errors == 0
        &&& !self.opponent_finished
        &&& self.opponent_wpm_x100 == 0
        &&& self.opponent_accuracy_x100 == 0
    }

    /// An empty lobby.
    pub fn new() -> (g: GameSession)
        ensures
            g.is_fresh(),
    {
        GameSession {
            sub: GameSubState::Lobby,
            peers: Vec::new(),
            network_status: String::new(),
            message: String::new(),
            opponent: None,
            last_opponent_id: None,
            incoming_request: None,
            text_len: 0,
            countdown_started_at: None,
            countdown_secs: 0,
            opponent_pos: 0,
            opponent_errors: 0,
            opponent_finished: false,
            opponent_wpm_x100: 0,
            opponent_accuracy_x100: 0,
        }
    }
}

/// Whether `s` is a session on `text` with nothing typed yet.
pub open spec fn fresh_session(s: Option<Session>, text: Seq<char>) -> bool {
    s matches Some(x) && x.target@ == text && x.typed@.len() == 0 && x.errors == 0
        && x.start_time is None && x.finished_at is None
}

/// The seconds left on the countdown after `elapsed` nanoseconds, rounded up;
/// 0 once it has run out.
pub open spec fn countdown_remaining(elapsed: u64) -> i32 {
    let total = COUNTDOWN_SECS * NANOS_PER_SEC;
    if elapsed >= total {
        0
    } else {
        ((total - elapsed + NANOS_PER_SEC - 1) / NANOS_PER_SEC as int) as i32
    }
}

/// The countdown shows its full number of seconds at its start, never
/// counts up as time passes, and reaches zero exactly when its seconds have
/// run out.
pub proof fn law_countdown_runs_down(a: u64, b: u64)
    requires
        a <= b,
    ensures
        countdown_remaining(0) == COUNTDOWN_SECS,
        0 <= countdown_remaining(b) <= countdown_remaining(a) <= COUNTDOWN_SECS,
        countdown_remaining(a) == 0 <==> a >= COUNTDOWN_SECS * NANOS_PER_SEC,
{
}

/// The name the game shows for an optional opponent.
pub open spec fn opponent_name(p: Option<Peer>) -> Seq<char> {
    match p {
        Some(q) => q.name@,
        None => "Opponent"@,
    }
}

/// The whole state of the tutor, except for floating-point scores and the
/// network service, which the caller keeps.
pub struct AppState {
    pub mode: Mode,
    pub session: Option<Session>,
    pub lessons_completed: HashSet<usize>,
    pub last_lesson_index: usize,
    pub last_text_index: usize,
    pub layout: KeyboardLayout,
    /// The name used in the LAN lobby; it outlives visits to the game page.
    pub player_name: String,
    pub game: GameSession,
}

impl AppState {
    /// Whether the lesson or text the mode points at exists.
    pub open spec fn wf(&self) -> bool {
        &&& (self.mode matches Mode::Lesson(i) ==> i < LESSON_COUNT)
        &&& (self.mode matches Mode::Practice(i) ==> i < TEXT_COUNT)
    }

    /// Whether `self` and `other` differ at most in the game state.
    pub open spec fn same_outside_game(&self, other: &AppState) -> bool {
        &&& self.mode == other.mode
        &&& self.session == other.session
        &&& self.lessons_completed@ == other.lessons_completed@
        &&& self.last_lesson_index == other.last_lesson_index
        &&& self.last_text_index == other.last_text_index
        &&& self.layout == other.layout
        &&& self.player_name == other.player_name
    }

    /// Whether `self` and `other` hold the same lessons, indices, layout and
    /// name.
    pub open spec fn same_settings(&self, other: &AppState) -> bool {
        &&& self.lessons_completed@ == other.lessons_completed@
        &&& self.last_lesson_index == other.last_lesson_index
        &&& self.last_text_index == other.last_text_index
        &&& self.layout == other.layout
        &&& self.player_name == other.player_name
    }

    /// The home page, with `layout` and `player_name`, nothing done yet.
    pub fn new(layout: KeyboardLayout, player_name: String) -> (s: AppState)
        ensures
            s.wf(),
            s.mode == Mode::Home,
            s.session is None,
            s.lessons_completed@ == Set::<usize>::empty(),
            s.last_lesson_index == 0,
            s.last_text_index == 0,
            s.layout == layout,
            s.player_name == player_name,
            s.game.is_fresh(),
    {
        AppState {
            mode: Mode::Home,
            session: None,
            lessons_completed: HashSet::new(),
            last_lesson_index: 0,
            last_text_index: 0,
            layout,
            player_name,
            game: GameSession::new(),
        }
    }

    /// Opens lesson `idx` (the last one when `idx` is past the end) on a new
    /// session.
    pub fn start_lesson(&mut self, idx: usize)
        ensures
            ({
                let i = if idx < LESSON_COUNT { idx } else { (LESSON_COUNT - 1) as usize };
                &&& final(self).mode == Mode::Lesson(i)
                &&& final(self).last_lesson_index == i
                &&& fresh_session(final(self).session, lesson_text(i as int))
            }),
            final(self).wf(),
            final(self).lessons_completed@ == old(self).lessons_completed@,
            final(self).last_text_index == old(self).last_text_index,
            final(self).layout == old(self).layout,
            final(self).player_name == old(self).player_name,
            final(self).game == old(self).game,
    {
        let i = if idx < LESSON_COUNT {
            idx
        } else {
            LESSON_COUNT - 1
        };
        self.mode = Mode::Lesson(i);
        self.last_lesson_index = i;
        self.session = Some(Session::new(lesson(i).text));
    }

    /// Opens practice text `idx` (the last one when `idx` is past the end) on
    /// a new session.
    pub fn start_practice(&mut self, idx: usize)
        ensures
            ({
                let i = if idx < TEXT_COUNT { idx } else { (TEXT_COUNT - 1) as usize };
                &&& final(self).mode == Mode::Practice(i)
                &&& final(self).last_text_index == i
                &&& fresh_session(final(self).session, text_content(i as int))
            }),
            final(self).wf(),
            final(self).lessons_completed@ == old(self).lessons_completed@,
            final(self).last_lesson_index == old(self).last_lesson_index,
            final(self).layout == old(self).layout,
            final(self).player_name == old(self).player_name,
            final(self).game == old(self).game,
    {
        let i = if idx < TEXT_COUNT {
            idx
        } else {
            TEXT_COUNT - 1
        };
        self.mode = Mode::Practice(i);
        self.last_text_index = i;
        self.session = Some(Session::new(sample_text(i).content));
    }

    /// Starts the current lesson or text over; elsewhere nothing changes.
    pub fn restart_current(&mut self)
        requires
            old(self).wf(),
        ensures
            final(self).wf(),
            final(self).mode == old(self).mode,
            final(self).same_settings(&*old(self)),
            final(self).game == old(self).game,
            match old(self).mode {
                Mode::Lesson(i) => fresh_session(final(self).session, lesson_text(i as int)),
                Mode::Practice(i) => fresh_session(final(self).session, text_content(i as int)),
                _ => final(self).session == old(self).session,
            },
    {
        match self.mode {
            Mode::Lesson(i) => {
                self.session = Some(Session::new(lesson(i).text));
            },
            Mode::Practice(i) => {
                self.session = Some(Session::new(sample_text(i).content));
            },
            Mode::Home | Mode::Game => {},
        }
    }

    /// Moves on: to the next lesson (staying on the last one), or to the next
    /// text (wrapping round to the first); elsewhere nothing changes.
    pub fn advance_to_next(&mut self)
        requires
            old(self).wf(),
        ensures
            final(self).wf(),
            final(self).lessons_completed@ == old(self).lessons_completed@,
            final(self).layout == old(self).layout,
            final(self).player_name == old(self).player_name,
            final(self).game == old(self).game,
            match old(self).mode {
                Mode::Lesson(i) => {
                    let n = if i + 1 < LESSON_COUNT { (i + 1) as usize } else { (LESSON_COUNT - 1) as usize };
                    &&& final(self).mode == Mode::Lesson(n)
                    &&& final(self).last_lesson_index == n
                    &&& final(self).last_text_index == old(self).last_text_index
                    &&& fresh_session(final(self).session, lesson_text(n as int))
                },
                Mode::Practice(i) => {
                    let n = ((i + 1) % (TEXT_COUNT as int)) as usize;
                    &&& final(self).mode == Mode::Practice(n)
                    &&& final(self).last_text_index == n
                    &&& final(self).last_lesson_index == old(self).last_lesson_index
                    &&& fresh_session(final(self).session, text_content(n as int))
                },
                _ => {
                    &&& final(self).mode == old(self).mode
                    &&& final(self).session == old(self).session
                    &&& final(self).last_lesson_index == old(self).last_lesson_index
                    &&& final(self).last_text_index == old(self).last_text_index
                },
            },
    {
        match self.mode {
            Mode::Lesson(i) => {
                let next = if i + 1 < LESSON_COUNT {
                    i + 1
                } else {
                    LESSON_COUNT - 1
                };
                self.start_lesson(next);
            },
            Mode::Practice(i) => {
                let next = (i + 1) % TEXT_COUNT;
                self.start_practice(next);
            },
            Mode::Home | Mode::Game => {},
        }
    }

    // -----------------------------------------------------------------------
    //  The game
    // -----------------------------------------------------------------------

    /// Opens the game page once networking runs on `tcp_port`: a fresh lobby
    /// listing `peers`, with the listening status shown.
    pub fn enter_game(&mut self, tcp_port: u16, peers: Vec<Peer>)
        ensures
            final(self).mode == Mode::Game,
            final(self).session is None,
            final(self).same_settings(&*old(self)),
            final(self).game.sub == GameSubState::Lobby,
            final(self).game.peers == peers,
            final(self).game.network_status@ == listening_status_spec(tcp_port, old(self).player_name@),
            final(self).game.message@.len() == 0,
            final(self).game.opponent is None,
            final(self).game.last_opponent_id is None,
            final(self).game.incoming_request is None,
            final(self).game.text_len == 0,
            final(self).game.countdown_started_at is None,
            final(self).game.countdown_secs == 0,
            final(self).game.opponent_pos == 0,
            final(self).game.opponent_errors == 0,
            !final(self).game.opponent_finished,
            final(self).game.opponent_wpm_x100 == 0,
            final(self).game.opponent_accuracy_x100 == 0,
    {
        self.mode = Mode::Game;
        self.session = None;
        let status = listening_status(tcp_port, self.player_name.as_str());
        let mut game = GameSession::new();
        game.peers = peers;
        game.network_status = status;
        self.game = game;
    }

    /// Leaves the game: the race state is dropped, and so is the session.
    pub fn leave_game(&mut self)
        ensures
            final(self).mode == old(self).mode,
            final(self).same_settings(&*old(self)),
            final(self).game.is_fresh(),
            final(self).session is None,
    {
        self.game = GameSession::new();
        self.session = None;
    }

    /// Starts a race on `text` against `opponent` at `now`: a new session on
    /// the text, the opponent's progress reset, and the countdown running.
    pub fn enter_race(&mut self, text: String, opponent: Peer, now: u64)
        ensures
            final(self).mode == old(self).mode,
            final(self).same_settings(&*old(self)),
            fresh_session(final(self).session, text@),
            final(self).game.last_opponent_id matches Some(id) && id@ == opponent.id@,
            final(self).game.opponent matches Some(o) && o@ == opponent@,
            final(self).game.text_len == text@.len(),
            final(self).game.opponent_pos == 0,
            final(self).game.opponent_errors == 0,
            !final(self).game.opponent_finished,
            final(self).game.opponent_wpm_x100 == 0,
            final(self).game.opponent_accuracy_x100 == 0,
            final(self).game.sub == GameSubState::Countdown,
            final(self).game.countdown_started_at == Some(now),
            final(self).game.countdown_secs == COUNTDOWN_SECS,
            final(self).game.message@.len() == 0,
            final(self).game.incoming_request is None,
            final(self).game.peers == old(self).game.peers,
            final(self).game.network_status == old(self).game.network_status,
    {
        let session = Session::new(text.as_str());
        let text_len = session.target.len();
        self.session = Some(session);
        self.game.last_opponent_id = Some(opponent.id.clone());
        self.game.opponent = Some(opponent);
        self.game.text_len = text_len;
        self.game.opponent_pos = 0;
        self.game.opponent_errors = 0;
        self.game.opponent_finished = false;
        self.game.opponent_wpm_x100 = 0;
        self.game.opponent_accuracy_x100 = 0;
        self.game.sub = GameSubState::Countdown;
        self.game.countdown_started_at = Some(now);
        self.game.countdown_secs = COUNTDOWN_SECS;
        self.game.message = String::new();
        self.game.incoming_request = None;
    }

    /// Gives up the current race here: back to the lobby with no session, no
    /// opponent and no pending request.
    pub fn quit_race_locally(&mut self)
        ensures
            final(self).mode == old(self).mode,
            final(self).same_settings(&*old(self)),
            final(self).session is None,
            final(self).game.sub == GameSubState::Lobby,
            final(self).game.opponent is None,
            final(self).game.text_len == 0,
            final(self).game.opponent_pos == 0,
            final(self).game.opponent_errors == 0,
            !final(self).game.opponent_finished,
            final(self).game.countdown_started_at is None,
            final(self).game.incoming_request is None,
            final(self).game.peers == old(self).game.peers,
            final(self).game.network_status == old(self).game.network_status,
            final(self).game.message == old(self).game.message,
            final(self).game.last_opponent_id == old(self).game.last_opponent_id,
            final(self).game.countdown_secs == old(self).game.countdown_secs,
            final(self).game.opponent_wpm_x100 == old(self).game.opponent_wpm_x100,
            final(self).game.opponent_accuracy_x100 == old(self).game.opponent_accuracy_x100,
    {
        self.session = None;
        self.game.sub = GameSubState::Lobby;
        self.game.opponent = None;
        self.game.text_len = 0;
        self.game.opponent_pos = 0;
        self.game.opponent_errors = 0;
        self.game.opponent_finished = false;
        self.game.countdown_started_at = None;
        self.game.incoming_request = None;
    }

    /// Takes in one network event at `now` (see `NetEvent`), and tells the
    /// caller whether to decline a pending request.
    pub fn apply_net_event(&mut self, event: NetEvent, now: u64) -> (r: NetReaction)
        ensures
            final(self).same_settings(&*old(self)),
            final(self).mode == old(self).mode,
            match event {
                NetEvent::PeersUpdated(peers) => {
                    &&& r == NetReaction::Nothing
                    &&& final(self).session == old(self).session
                    &&& final(self).game == (GameSession { peers, ..old(self).game })
                },
                NetEvent::Status(msg) => {
                    &&& r == NetReaction::Nothing
                    &&& final(self).session == old(self).session
                    &&& final(self).game == (GameSession { network_status: msg, ..old(self).game })
                },
                NetEvent::IncomingRaceRequest { opponent } => {
                    &&& final(self).session == old(self).session
                    &&& if old(self).mode == Mode::Game && old(self).game.sub == GameSubState::Lobby {
                        &&& r == NetReaction::Nothing
                        &&& final(self).game == (GameSession {
                            incoming_request: Some(opponent),
                            ..old(self).game
                        })
                    } else {
                        &&& r == NetReaction::RejectIncoming
                        &&& final(self).game == old(self).game
                    }
                },
                NetEvent::RaceStartedAsServer { text, opponent } | NetEvent::RaceStartedAsClient {
                    text,
                    opponent,
                } => {
                    &&& r == NetReaction::Nothing
                    &&& if old(self).mode == Mode::Game {
                        &&& fresh_session(final(self).session, text@)
                        &&& final(self).game.sub == GameSubState::Countdown
                        &&& final(self).game.countdown_started_at == Some(now)
                        &&& final(self).game.countdown_secs == COUNTDOWN_SECS
                        &&& final(self).game.opponent matches Some(o) && o@ == opponent@
                        &&& final(self).game.last_opponent_id matches Some(id) && id@ == opponent.id@
                        &&& final(self).game.text_len == text@.len()
                        &&& final(self).game.opponent_pos == 0
                        &&& final(self).game.opponent_errors == 0
                        &&& !final(self).game.opponent_finished
                        &&& final(self).game.opponent_wpm_x100 == 0
                        &&& final(self).game.opponent_accuracy_x100 == 0
                        &&& final(self).game.message@.len() == 0
                        &&& final(self).game.incoming_request is None
                        &&& final(self).game.peers == old(self).game.peers
                        &&& final(self).game.network_status == old(self).game.network_status
                    } else {
                        &&& final(self).session == old(self).session
                        &&& final(self).game == old(self).game
                    }
                },
                NetEvent::OpponentProgress { position, errors } => {
                    &&& r == NetReaction::Nothing
                    &&& final(self).session == old(self).session
                    &&& final(self).game == (GameSession {
                        opponent_pos: position,
                        opponent_errors: errors,
                        ..old(self).game
                    })
                },
                NetEvent::OpponentFinished { wpm_x100, accuracy_x100 } => {
                    &&& r == NetReaction::Nothing
                    &&& final(self).session == old(self).session
                    &&& final(self).game == (GameSession {
                        opponent_finished: true,
                        opponent_wpm_x100: wpm_x100,
                        opponent_accuracy_x100: accuracy_x100,
                        opponent_pos: old(self).game.text_len,
                        sub: if old(self).session matches Some(s) && s.finished_at is Some {
                            GameSubState::Finished
                        } else {
                            old(self).game.sub
                        },
                        ..old(self).game
                    })
                },
                NetEvent::OpponentDisconnected => {
                    &&& r == NetReaction::Nothing
                    &&& if old(self).mode == Mode::Game && (old(self).game.sub == GameSubState::Countdown
                        || old(self).game.sub == GameSubState::Racing) {
                        &&& final(self).game.message@ == opponent_name(old(self).game.opponent) + " left the race."@
                        &&& final(self).session is None
                        &&& final(self).game == (GameSession {
                            message: final(self).game.message,
                            sub: GameSubState::Lobby,
                            opponent: None,
                            text_len: 0,
                            countdown_started_at: None,
                            ..old(self).game
                        })
                    } else {
                        &&& final(self).session == old(self).session
                        &&& final(self).game == old(self).game
                    }
                },
                NetEvent::InviteRejected { opponent_id: _ } => {
                    &&& r == NetReaction::Nothing
                    &&& final(self).game.message@ == "They're busy or declined the race. Try again in a moment."@
                    &&& final(self).session is None
                    &&& final(self).game == (GameSession {
                        message: final(self).game.message,
                        sub: GameSubState::Lobby,
                        opponent: None,
                        ..old(self).game
                    })
                },
            },
    {
        match event {
            NetEvent::PeersUpdated(peers) => {
                self.game.peers = peers;
                NetReaction::Nothing
            },
            NetEvent::Status(msg) => {
                self.game.network_status = msg;
                NetReaction::Nothing
            },
            NetEvent::IncomingRaceRequest { opponent } => {
                let can_show = self.mode == Mode::Game && self.game.sub == GameSubState::Lobby;
                if can_show {
                    self.game.incoming_request = Some(opponent);
                    NetReaction::Nothing
                } else {
                    NetReaction::RejectIncoming
                }
            },
            NetEvent::RaceStartedAsServer { text, opponent } | NetEvent::RaceStartedAsClient {
                text,
                opponent,
            } => {
                if self.mode == Mode::Game {
                    self.enter_race(text, opponent, now);
                }
                NetReaction::Nothing
            },
            NetEvent::OpponentProgress { position, errors } => {
                self.game.opponent_pos = position;
                self.game.opponent_errors = errors;
                NetReaction::Nothing
            },
            NetEvent::OpponentFinished { wpm_x100, accuracy_x100 } => {
                self.game.opponent_finished = true;
                self.game.opponent_wpm_x100 = wpm_x100;
                self.game.opponent_accuracy_x100 = accuracy_x100;
                self.game.opponent_pos = self.game.text_len;
                let done = match &self.session {
                    Some(s) => s.is_finished(),
                    None => false,
                };
                if done {
                    self.game.sub = GameSubState::Finished;
                }
                NetReaction::Nothing
            },
            NetEvent::OpponentDisconnected => {
                if self.mode == Mode::Game && (self.game.sub == GameSubState::Countdown
                    || self.game.sub == GameSubState::Racing) {
                    let mut msg = match &self.game.opponent {
                        Some(p) => p.name.clone(),
                        None => String::from_str("Opponent"),
                    };
                    msg.append(" left the race.");
                    self.game.message = msg;
                    self.session = None;
                    self.game.sub = GameSubState::Lobby;
                    self.game.opponent = None;
                    self.game.text_len = 0;
                    self.game.countdown_started_at = None;
                }
                NetReaction::Nothing
            },
            NetEvent::InviteRejected { opponent_id: _ } => {
                self.game.message = String::from_str(
                    "They're busy or declined the race. Try again in a moment.",
                );
                self.game.sub = GameSubState::Lobby;
                self.game.opponent = None;
                self.session = None;
                NetReaction::Nothing
            },
        }
    }

    /// Runs the countdown at `now`: once it has run out the race starts (the
    /// clock of the session starts too) and `true` is returned; before that
    /// the seconds shown follow the time left.
    pub fn tick(&mut self, now: u64) -> (started: bool)
        ensures
            final(self).same_settings(&*old(self)),
            final(self).mode == old(self).mode,
            ({
                let g = old(self).game;
                if old(self).mode == Mode::Game && g.sub == GameSubState::Countdown
                    && g.countdown_started_at is Some {
                    let elapsed = if now >= g.countdown_started_at->0 {
                        (now - g.countdown_started_at->0) as u64
                    } else {
                        0u64
                    };
                    let remaining = countdown_remaining(elapsed);
                    if remaining <= 0 {
                        &&& started
                        &&& final(self).game == (GameSession {
                            sub: GameSubState::Racing,
                            countdown_secs: 0,
                            ..old(self).game
                        })
                        &&& match old(self).session {
                            Some(s) => final(self).session matches Some(t) && t@ == (SessionModel {
                                start_time: Some(now),
                                ..s@
                            }),
                            None => final(self).session is None,
                        }
                    } else {
                        &&& !started
                        &&& final(self).game == (GameSession { countdown_secs: remaining, ..old(self).game })
                        &&& final(self).session == old(self).session
                    }
                } else {
                    &&& !started
                    &&& final(self).game == old(self).game
                    &&& final(self).session == old(self).session
                }
            }),
    {
        if self.mode == Mode::Game && self.game.sub == GameSubState::Countdown {
            if let Some(started) = self.game.countdown_started_at {
                let elapsed = now.saturating_sub(started);
                let total: u64 = (COUNTDOWN_SECS as u64) * NANOS_PER_SEC;
                let remaining: i32 = if elapsed >= total {
                    0
                } else {
                    ((total - elapsed + NANOS_PER_SEC - 1) / NANOS_PER_SEC) as i32
                };
                if remaining <= 0 {
                    self.game.sub = GameSubState::Racing;
                    self.game.countdown_secs = 0;
                    if let Some(mut session) = self.session.take() {
                        session.start_time = Some(now);
                        self.session = Some(session);
                    }
                    return true;
                } else if remaining != self.game.countdown_secs {
                    self.game.countdown_secs = remaining;
                }
            }
        }
        false
    }

    // -----------------------------------------------------------------------
    //  Typing
    // -----------------------------------------------------------------------

    /// Whether keystrokes reach the session: not on the home page, and in the
    /// game only while racing.
    pub open spec fn accepts_keys(&self) -> bool {
        self.mode != Mode::Home && (self.mode == Mode::Game ==> self.game.sub
            == GameSubState::Racing)
    }

    /// Types the first character of `text` at `now` into the session, if
    /// keystrokes reach it. When that finishes the text, a lesson is marked
    /// completed and a race is marked finished.
    pub fn key_typed(&mut self, text: &str, now: u64) -> (k: Keystroke)
        requires
            old(self).session matches Some(s) ==> s.errors < usize::MAX,
        ensures
            final(self).mode == old(self).mode,
            final(self).last_lesson_index == old(self).last_lesson_index,
            final(self).last_text_index == old(self).last_text_index,
            final(self).layout == old(self).layout,
            final(self).player_name == old(self).player_name,
            !old(self).accepts_keys() || old(self).session is None ==> {
                &&& k == Keystroke::Ignored
                &&& final(self).session == old(self).session
                &&& final(self).game == old(self).game
                &&& final(self).lessons_completed@ == old(self).lessons_completed@
            },
            old(self).accepts_keys() && old(self).session is Some ==> {
                let finished = k matches Keystroke::Typed { finished, .. } && finished;
                &&& final(self).session is Some
                &&& (final(self).session->0@, k) == keystroke_spec(old(self).session->0@, text@, now)
                &&& final(self).game == (GameSession {
                    sub: if finished && old(self).mode == Mode::Game {
                        GameSubState::Finished
                    } else {
                        old(self).game.sub
                    },
                    ..old(self).game
                })
                &&& final(self).lessons_completed@ == match old(self).mode {
                    Mode::Lesson(i) => if finished {
                        old(self).lessons_completed@.insert(i)
                    } else {
                        old(self).lessons_completed@
                    },
                    _ => old(self).lessons_completed@,
                }
            },
    {
        if self.mode == Mode::Home {
            return Keystroke::Ignored;
        }
        if self.mode == Mode::Game && self.game.sub != GameSubState::Racing {
            return Keystroke::Ignored;
        }
        let k = match self.session.take() {
            Some(mut session) => {
                let k = session.type_text(text, now);
                self.session = Some(session);
                k
            },
            None => {
                return Keystroke::Ignored;
            },
        };
        if let Keystroke::Typed { finished: true, .. } = k {
            match self.mode {
                Mode::Lesson(i) => {
                    self.lessons_completed.insert(i);
                },
                Mode::Game => {
                    self.game.sub = GameSubState::Finished;
                },
                Mode::Practice(_) | Mode::Home => {},
            }
        }
        k
    }

    /// Erases the last typed character, if keystrokes reach the session (in
    /// the game, only while racing). Gives the position and error count
    /// afterwards, or `None` when nothing was done.
    pub fn backspace(&mut self) -> (r: Option<(usize, usize)>)
        ensures
            final(self).mode == old(self).mode,
            final(self).same_settings(&*old(self)),
            final(self).game == old(self).game,
            (old(self).mode == Mode::Game && old(self).game.sub != GameSubState::Racing)
                || old(self).session is None ==> r is None && final(self).session == old(self).session,
            !((old(self).mode == Mode::Game && old(self).game.sub != GameSubState::Racing)
                || old(self).session is None) ==> {
                &&& final(self).session is Some
                &&& (final(self).session->0@, r) == backspace_spec(old(self).session->0@)
            },
    {
        if self.mode == Mode::Game && self.game.sub != GameSubState::Racing {
            return None;
        }
        match self.session.take() {
            Some(mut session) => {
                let r = session.backspace();
                self.session = Some(session);
                r
            },
            None => None,
        }
    }

    // -----------------------------------------------------------------------
    //  Navigation and lobby buttons
    // -----------------------------------------------------------------------

    /// Goes to the home page; leaving the game drops its state.
    pub fn open_home(&mut self)
        ensures
            final(self).mode == Mode::Home,
            final(self).session is None,
            final(self).same_settings(&*old(self)),
            old(self).mode == Mode::Game ==> final(self).game.is_fresh(),
            old(self).mode != Mode::Game ==> final(self).game == old(self).game,
            final(self).wf(),
    {
        if self.mode == Mode::Game {
            self.leave_game();
        }
        self.mode = Mode::Home;
        self.session = None;
    }

    /// Goes to the lessons page, on the lesson shown last (or the current
    /// one); leaving the game drops its state.
    pub fn open_lessons(&mut self)
        ensures
            ({
                let idx = match old(self).mode {
                    Mode::Lesson(i) => i,
                    _ => old(self).last_lesson_index,
                };
                let i = if idx < LESSON_COUNT { idx } else { (LESSON_COUNT - 1) as usize };
                &&& final(self).mode == Mode::Lesson(i)
                &&& final(self).last_lesson_index == i
                &&& fresh_session(final(self).session, lesson_text(i as int))
            }),
            final(self).wf(),
            final(self).lessons_completed@ == old(self).lessons_completed@,
            final(self).last_text_index == old(self).last_text_index,
            final(self).layout == old(self).layout,
            final(self).player_name == old(self).player_name,
            old(self).mode == Mode::Game ==> final(self).game.is_fresh(),
            old(self).mode != Mode::Game ==> final(self).game == old(self).game,
    {
        if self.mode == Mode::Game {
            self.leave_game();
        }
        let idx = match self.mode {
            Mode::Lesson(i) => i,
            _ => self.last_lesson_index,
        };
        self.start_lesson(idx);
    }

    /// Goes to the practice page, on the text shown last (or the current
    /// one); leaving the game drops its state.
    pub fn open_practice(&mut self)
        ensures
            ({
                let idx = match old(self).mode {
                    Mode::Practice(i) => i,
                    _ => old(self).last_text_index,
                };
                let i = if idx < TEXT_COUNT { idx } else { (TEXT_COUNT - 1) as usize };
                &&& final(self).mode == Mode::Practice(i)
                &&& final(self).last_text_index == i
                &&& fresh_session(final(self).session, text_content(i as int))
            }),
            final(self).wf(),
            final(self).lessons_completed@ == old(self).lessons_completed@,
            final(self).last_lesson_index == old(self).last_lesson_index,
            final(self).layout == old(self).layout,
            final(self).player_name == old(self).player_name,
            old(self).mode == Mode::Game ==> final(self).game.is_fresh(),
            old(self).mode != Mode::Game ==> final(self).game == old(self).game,
    {
        if self.mode == Mode::Game {
            self.leave_game();
        }
        let idx = match self.mode {
            Mode::Practice(i) => i,
            _ => self.last_text_index,
        };
        self.start_practice(idx);
    }

    /// Takes the name the player typed (trimmed; `Player` when blank), and
    /// shows it in the status line when networking runs on `tcp_port`.
    /// Gives the name taken.
    pub fn rename_player(&mut self, raw: &str, tcp_port: Option<u16>) -> (name: String)
        ensures
            name@ == display_name_spec(raw@),
            final(self).player_name@ == name@,
            final(self).mode == old(self).mode,
            final(self).session == old(self).session,
            final(self).lessons_completed@ == old(self).lessons_completed@,
            final(self).last_lesson_index == old(self).last_lesson_index,
            final(self).last_text_index == old(self).last_text_index,
            final(self).layout == old(self).layout,
            final(self).game == (GameSession {
                network_status: final(self).game.network_status,
                ..old(self).game
            }),
            final(self).game.network_status@ == match tcp_port {
                Some(p) => listening_status_spec(p, name@),
                None => Seq::<char>::empty(),
            },
    {
        let name = resolve_display_name(raw);
        self.player_name = name.clone();
        self.game.network_status = match tcp_port {
            Some(p) => listening_status(p, name.as_str()),
            None => String::new(),
        };
        name
    }

    /// Answers "accept" to the pending race request, in the game only; tells
    /// whether the answer stands.
    pub fn accept_incoming(&mut self) -> (ok: bool)
        ensures
            ok == (old(self).mode == Mode::Game),
            final(self).mode == old(self).mode,
            final(self).session == old(self).session,
            final(self).game.sub == old(self).game.sub,
            final(self).same_settings(&*old(self)),
            ok ==> final(self).game.message@ == "Starting race\u{2026}"@ && final(self).game == (
            GameSession { incoming_request: None, message: final(self).game.message, ..old(self).game }),
            !ok ==> final(self).game == old(self).game,
    {
        if self.mode != Mode::Game {
            return false;
        }
        self.game.incoming_request = None;
        self.game.message = String::from_str("Starting race\u{2026}");
        true
    }

    /// Answers "decline" to the pending race request, in the game only; tells
    /// whether the answer stands.
    pub fn reject_incoming(&mut self) -> (ok: bool)
        ensures
            ok == (old(self).mode == Mode::Game),
            final(self).mode == old(self).mode,
            final(self).session == old(self).session,
            final(self).game.sub == old(self).game.sub,
            final(self).same_settings(&*old(self)),
            ok ==> final(self).game == (GameSession { incoming_request: None, ..old(self).game }),
            !ok ==> final(self).game == old(self).game,
    {
        if self.mode != Mode::Game {
            return false;
        }
        self.game.incoming_request = None;
        true
    }

    /// Whether a click on a peer may invite it: in the lobby of the game.
    pub fn may_invite(&self) -> (b: bool)
        ensures
            b == (self.mode == Mode::Game && self.game.sub == GameSubState::Lobby),
    {
        self.mode == Mode::Game && self.game.sub == GameSubState::Lobby
    }

    /// Shows the outcome of sending an invitation: `None` when it went out,
    /// otherwise the error's text.
    pub fn note_invite(&mut self, error: Option<&str>)
        ensures
            final(self).mode == old(self).mode,
            final(self).session == old(self).session,
            final(self).game.sub == old(self).game.sub,
            final(self).same_settings(&*old(self)),
            final(self).game == (GameSession { message: final(self).game.message, ..old(self).game }),
            final(self).game.message@ == match error {
                None => "Connecting\u{2026}"@,
                Some(e) => "Could not start race: "@ + e@,
            },
    {
        self.game.message = match error {
            None => String::from_str("Connecting\u{2026}"),
            Some(e) => {
                let mut m = String::from_str("Could not start race: ");
                m.append(e);
                m
            },
        };
    }

    /// The first half of a rematch, in the game only: quits the race here,
    /// says a rematch is being asked for, and gives the opponent to invite
    /// (if one was raced). `None` outside the game, where nothing changes.
    pub fn begin_rematch(&mut self) -> (r: Option<Option<String>>)
        ensures
            old(self).mode != Mode::Game ==> r is None && final(self).game == old(self).game
                && final(self).session == old(self).session,
            old(self).mode == Mode::Game ==> {
                &&& r matches Some(id) && id == old(self).game.last_opponent_id
                &&& final(self).session is None
                &&& final(self).game.message@ == "Requesting rematch\u{2026}"@
                &&& final(self).game == (GameSession {
                    message: final(self).game.message,
                    sub: GameSubState::Lobby,
                    opponent: None,
                    text_len: 0,
                    opponent_pos: 0,
                    opponent_errors: 0,
                    opponent_finished: false,
                    countdown_started_at: None,
                    incoming_request: None,
                    ..old(self).game
                })
            },
            final(self).mode == old(self).mode,
            final(self).same_settings(&*old(self)),
    {
        if self.mode != Mode::Game {
            return None;
        }
        let id = self.game.last_opponent_id.clone();
        self.quit_race_locally();
        self.game.message = String::from_str("Requesting rematch\u{2026}");
        Some(id)
    }

    /// Shows the outcome of the rematch invitation: `None` when it went out,
    /// otherwise the error's text.
    pub fn note_rematch(&mut self, error: Option<&str>)
        ensures
            final(self).mode == old(self).mode,
            final(self).session == old(self).session,
            final(self).game.sub == old(self).game.sub,
            final(self).same_settings(&*old(self)),
            final(self).game == (GameSession { message: final(self).game.message, ..old(self).game }),
            final(self).game.message@ == match error {
                None => "Rematch invite sent\u{2026}"@,
                Some(e) => "Rematch failed: "@ + e@,
            },
    {
        self.game.message = match error {
            None => String::from_str("Rematch invite sent\u{2026}"),
            Some(e) => {
                let mut m = String::from_str("Rematch failed: ");
                m.append(e);
                m
            },
        };
    }
}

/// In the whole tutor, erasing right after a keystroke takes it back: when
/// `key_typed` took a character without completing the text (so the state
/// `after_key` is what its contract gives from `before`), keystrokes still
/// reach the session, and `backspace` then gives back the typed text of
/// `before` while the error count keeps what the keystroke added.
pub proof fn law_erase_after_key_in_app(
    before: AppState,
    after_key: AppState,
    text: Seq<char>,
    now: u64,
    k: Keystroke,
)
    requires
        before.accepts_keys(),
        before.session is Some,
        k matches Keystroke::Typed { finished, .. } && !finished,
        after_key.mode == before.mode,
        after_key.game.sub == before.game.sub,
        after_key.session is Some,
        (after_key.session->0@, k) == keystroke_spec(before.session->0@, text, now),
    ensures
        !(after_key.mode == Mode::Game && after_key.game.sub != GameSubState::Racing),
        ({
            let s0 = before.session->0@;
            let s1 = after_key.session->0@;
            let (s2, r) = backspace_spec(s1);
            &&& s2.typed == s0.typed
            &&& s2.target == s0.target
            &&& s2.errors == s1.errors
            &&& s1.errors >= s0.errors
            &&& r == Some((s0.typed.len() as usize, s1.errors as usize))
        }),
{
    let s0 = before.session->0@;
    crate::session::law_backspace_takes_back_a_keystroke(s0, text, now);
}

/// How far the race has come, for the result panel.
#[derive(Debug, Clone, Copy, PartialEq, Eq, Structural)]
pub enum RaceStanding {
    /// Neither side has finished: nothing to show.
    Undecided,
    /// We finished and wait for the opponent.
    YouFinishedFirst,
    /// The opponent finished and we are still typing.
    OpponentFinishedFirst,
    /// Both finished: the speeds decide.
    BothFinished,
}

impl AppState {
    /// Whether our session has finished.
    pub open spec fn finished_here(&self) -> bool {
        self.session matches Some(s) && s.finished_at is Some
    }

    /// Which result the race panel shows.
    pub fn race_standing(&self) -> (r: RaceStanding)
        ensures
            r == (if self.finished_here() && self.game.opponent_finished {
                RaceStanding::BothFinished
            } else if self.finished_here() {
                RaceStanding::YouFinishedFirst
            } else if self.game.opponent_finished {
                RaceStanding::OpponentFinishedFirst
            } else {
                RaceStanding::Undecided
            }),
    {
        let me_done = match &self.session {
            Some(s) => s.is_finished(),
            None => false,
        };
        match (me_done, self.game.opponent_finished) {
            (true, true) => RaceStanding::BothFinished,
            (true, false) => RaceStanding::YouFinishedFirst,
            (false, true) => RaceStanding::OpponentFinishedFirst,
            (false, false) => RaceStanding::Undecided,
        }
    }

    /// The name the game shows for the opponent: theirs, or `Opponent`.
    pub fn opponent_display_name(&self) -> (s: String)
        ensures
            s@ == opponent_name(self.game.opponent),
    {
        match &self.game.opponent {
            Some(p) => p.name.clone(),
            None => String::from_str("Opponent"),
        }
    }

    /// The opponent's progress while they type: `<typed> / <length> chars`,
    /// the typed count capped at the length; empty while no race text is
    /// known.
    pub fn opponent_chars_text(&self) -> (s: String)
        ensures
            s@ == if self.game.text_len > 0 {
                dec_digits(
                    (if self.game.opponent_pos <= self.game.text_len {
                        self.game.opponent_pos
                    } else {
                        self.game.text_len
                    }) as nat,
                ) + " / "@ + dec_digits(self.game.text_len as nat) + " chars"@
            } else {
                Seq::empty()
            },
    {
        let mut s = String::new();
        if self.game.text_len > 0 {
            let shown = if self.game.opponent_pos <= self.game.text_len {
                self.game.opponent_pos
            } else {
                self.game.text_len
            };
            push_decimal(&mut s, shown as u64);
            s.append(" / ");
            push_decimal(&mut s, self.game.text_len as u64);
            s.append(" chars");
        }
        s
    }
}

/// The lobby name when the player has not chosen one: the `USERNAME`
/// variable if it is set, otherwise `USER`; `Player` when that is missing or
/// empty.
pub fn choose_player_name(username: Option<String>, user: Option<String>) -> (name: String)
    ensures
        name@ == match username {
            Some(u) => if u@.len() > 0 { u@ } else { "Player"@ },
            None => match user {
                Some(u) => if u@.len() > 0 { u@ } else { "Player"@ },
                None => "Player"@,
            },
        },
{
    let chosen = match username {
        Some(u) => Some(u),
        None => user,
    };
    match chosen {
        Some(s) => {
            if s.as_str().unicode_len() > 0 {
                s
            } else {
                String::from_str("Player")
            }
        },
        None => String::from_str("Player"),
    }
}

} // verus!

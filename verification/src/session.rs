//! A game played over one connection: pieces fall by the clock, and the player's
//! commands come in as writes to the control characteristic.
use crate::clock::ticks_from_millis;
use crate::game::{Game, GameView};
use crate::rng::TetrisRng;
use crate::state::{extract_game_state, GameState};
use vstd::prelude::*;

verus! {

/// Milliseconds after which a piece falls by itself.
pub const FALL_INTERVAL_MS: u64 = 500;

/// Clock ticks after which a piece falls by itself.
pub const FALL_INTERVAL_TICKS: u64 = 500_000;

/// Milliseconds for which the game waits for an event before the next round.
pub const WAIT_MS: u64 = 50;

/// Clock ticks for which the game waits for an event before the next round.
pub const WAIT_TICKS: u64 = 50_000;

/// No command.
pub const CMD_NONE: u8 = 0;

/// Move the piece to the left.
pub const CMD_LEFT: u8 = 1;

/// Move the piece to the right.
pub const CMD_RIGHT: u8 = 2;

/// Turn the piece.
pub const CMD_ROTATE: u8 = 3;

/// Move the piece down.
pub const CMD_DOWN: u8 = 4;

/// Start a new game if there is none in progress.
pub const CMD_START: u8 = 5;

/// What happens on the connection while the game waits.
#[derive(Clone, Copy, Debug, PartialEq, Eq)]
pub enum LinkEvent<'a> {
    /// The other side is gone.
    Disconnected,
    /// A write of `data` to the attribute `handle`.
    Write { handle: u16, data: &'a [u8] },
    /// Another request to the attribute server.
    Request,
    /// Anything else on the connection.
    Other,
    /// Nothing, for as long as the game waits.
    Timeout,
}

/// What to do about an event.
#[derive(Clone, Copy, Debug, PartialEq, Eq, Structural)]
pub enum LinkAction {
    /// Stop playing.
    Leave,
    /// Accept the request and send the reply.
    Reply,
    /// Go on.
    Proceed,
}

/// A game and what is needed to play it over a connection.
#[derive(Clone, Copy, Debug, PartialEq, Eq)]
pub struct Session {
    pub game: Game,
    /// The attribute that takes the commands.
    pub control: u16,
    /// When the piece moved down last, in clock ticks.
    pub last_update: u64,
    /// The command that came last.
    pub pending_cmd: u8,
    /// Whether that command has been obeyed.
    pub cmd_processed: bool,
}

/// What a `Session` holds, in mathematical terms.
#[verifier::ext_equal]
pub struct SessionView {
    pub game: GameView,
    pub control: u16,
    pub last_update: int,
    pub pending_cmd: u8,
    pub cmd_processed: bool,
}

impl View for Session {
    type V = SessionView;

    open spec fn view(&self) -> SessionView {
        SessionView {
            game: self.game@,
            control: self.control,
            last_update: self.last_update as int,
            pending_cmd: self.pending_cmd,
            cmd_processed: self.cmd_processed,
        }
    }
}

/// The command that an event brings, if it is one for the attribute `control`.
pub open spec fn command_in(event: LinkEvent<'_>, control: u16) -> Option<u8> {
    match event {
        LinkEvent::Write { handle, data } => if handle == control && data@.len() > 0 {
            Some(data@[0])
        } else {
            None
        },
        _ => None,
    }
}

/// What to do about an event.
pub open spec fn action_for(event: LinkEvent<'_>) -> LinkAction {
    match event {
        LinkEvent::Disconnected => LinkAction::Leave,
        LinkEvent::Write { .. } => LinkAction::Reply,
        LinkEvent::Request => LinkAction::Reply,
        LinkEvent::Other => LinkAction::Proceed,
        LinkEvent::Timeout => LinkAction::Proceed,
    }
}

/// When the wait after the round at `now` ends: with the event, if one comes at
/// `event_at` or has come already, and at the deadline otherwise.
pub open spec fn wait_ends(now: int, event_at: Option<int>) -> int {
    match event_at {
        Some(at) => if at <= now {
            now
        } else if at < now + WAIT_TICKS {
            at
        } else {
            now + WAIT_TICKS
        },
        None => now + WAIT_TICKS,
    }
}

/// Until when the game waits for an event after the round at `now`.
pub fn wait_deadline(now: u64) -> (deadline: u64)
    requires
        now + WAIT_TICKS <= u64::MAX,
    ensures
        deadline == wait_ends(now as int, None),
{
    now + ticks_from_millis(WAIT_MS)
}

impl SessionView {
    /// A session that begins at time `now`.
    pub open spec fn begun(rng: TetrisRng, control: u16, now: int) -> SessionView {
        SessionView {
            game: GameView::fresh(rng),
            control,
            last_update: now,
            pending_cmd: CMD_NONE,
            cmd_processed: true,
        }
    }

    /// Whether the piece falls by itself at time `now`.
    pub open spec fn falls(self, now: int) -> bool {
        now - self.last_update >= FALL_INTERVAL_TICKS
    }

    /// Whether `cmd` waits to be obeyed.
    pub open spec fn awaits(self, cmd: u8) -> bool {
        !self.cmd_processed && self.pending_cmd == cmd
    }

    /// The session after the clock has been looked at.
    pub open spec fn fallen(self, now: int) -> SessionView {
        if self.falls(now) {
            SessionView { game: self.game.moved_down(), last_update: now, ..self }
        } else {
            self
        }
    }

    /// The game after the command that waits, if there is one. Only a game that is
    /// over is started again, and a command without a meaning does nothing.
    pub open spec fn game_after_command(self) -> GameView {
        if self.awaits(CMD_LEFT) {
            self.game.moved_left()
        } else if self.awaits(CMD_RIGHT) {
            self.game.moved_right()
        } else if self.awaits(CMD_ROTATE) {
            self.game.rotated()
        } else if self.awaits(CMD_DOWN) {
            self.game.moved_down()
        } else if self.awaits(CMD_START) && self.game.game_over {
            GameView::fresh(self.game.rng)
        } else {
            self.game
        }
    }

    /// The session after the command that waits has been obeyed at time `now`.
    pub open spec fn obeyed(self, now: int) -> SessionView {
        SessionView {
            game: self.game_after_command(),
            last_update: if self.awaits(CMD_DOWN) {
                now
            } else {
                self.last_update
            },
            cmd_processed: true,
            ..self
        }
    }

    /// The session after one round at time `now`.
    pub open spec fn ticked(self, now: int) -> SessionView {
        self.fallen(now).obeyed(now)
    }

    /// Whether the score after a round at time `now` can be counted.
    pub open spec fn has_score_room(self, now: int) -> bool {
        &&& self.falls(now) ==> self.game.has_score_room()
        &&& self.awaits(CMD_DOWN) ==> self.fallen(now).game.has_score_room()
    }

    /// The session after an event.
    pub open spec fn notified(self, event: LinkEvent<'_>) -> SessionView {
        match command_in(event, self.control) {
            Some(cmd) => SessionView { pending_cmd: cmd, cmd_processed: false, ..self },
            None => self,
        }
    }

    /// The session after all of `rounds`: each is a time, and an event after it.
    pub open spec fn played(self, rounds: Seq<(int, LinkEvent<'_>)>) -> SessionView
        decreases rounds.len(),
    {
        if rounds.len() == 0 {
            self
        } else {
            let (now, event) = rounds.last();
            self.played(rounds.drop_last()).ticked(now).notified(event)
        }
    }

    /// The session and the time at which its next round comes, after the round at `now`
    /// and a round for each of `waits`: when its event came, if one did, and the event.
    pub open spec fn run(self, now: int, waits: Seq<(Option<int>, LinkEvent<'_>)>) -> (
        SessionView,
        int,
    )
        decreases waits.len(),
    {
        if waits.len() == 0 {
            (self, now)
        } else {
            let (session, round) = self.run(now, waits.drop_last());
            let (event_at, event) = waits.last();
            (session.ticked(round).notified(event), wait_ends(round, event_at))
        }
    }

    /// The game can be played on, its piece lies on no locked cell unless it is over,
    /// and no row is complete.
    pub open spec fn is_sound(self) -> bool {
        self.game.wf() && self.game.is_apart() && self.game.is_tidy()
    }
}

impl Session {
    /// A session that begins at time `now` with a new game, for a connection on which
    /// the attribute `control` takes the commands.
    pub fn new(rng: TetrisRng, control: u16, now: u64) -> (session: Session)
        ensures
            session@ == SessionView::begun(rng, control, now as int),
            session@.game.wf(),
            session.control == control,
            session.last_update == now,
            session.pending_cmd == 0,
            session.cmd_processed,
    {
        Session {
            game: Game::new(rng),
            control,
            last_update: now,
            pending_cmd: CMD_NONE,
            cmd_processed: true,
        }
    }

    /// Lets the piece fall if it is time.
    fn fall(&mut self, now: u64)
        requires
            old(self)@.game.wf(),
            old(self)@.last_update <= now,
            old(self)@.falls(now as int) ==> old(self)@.game.has_score_room(),
        ensures
            final(self)@ == old(self)@.fallen(now as int),
            final(self)@.game.wf(),
    {
        let fall_interval: u64 = ticks_from_millis(FALL_INTERVAL_MS);
        if now - self.last_update >= fall_interval {
            self.game.move_down();
            self.last_update = now;
        }
    }

    /// Obeys the command that waits.
    fn obey(&mut self, now: u64)
        requires
            old(self)@.game.wf(),
            old(self)@.awaits(CMD_DOWN) ==> old(self)@.game.has_score_room(),
        ensures
            final(self)@ == old(self)@.obeyed(now as int),
            final(self)@.game.wf(),
    {
        if !self.cmd_processed {
            if self.pending_cmd == CMD_LEFT {
                self.game.move_left();
            } else if self.pending_cmd == CMD_RIGHT {
                self.game.move_right();
            } else if self.pending_cmd == CMD_ROTATE {
                self.game.rotate();
            } else if self.pending_cmd == CMD_DOWN {
                self.game.move_down();
                self.last_update = now;
            } else if self.pending_cmd == CMD_START {
                if self.game.is_game_over() {
                    self.game = Game::new(self.game.rng);
                }
            }
            self.cmd_processed = true;
        }
    }

    /// One round of the game at time `now`: the piece falls if it is time, the command
    /// that waits is obeyed, and the picture of the game is returned.
    pub fn tick(&mut self, now: u64) -> (state: GameState)
        requires
            old(self)@.game.wf(),
            old(self)@.last_update <= now,
            old(self)@.has_score_room(now as int),
        ensures
            final(self)@ == old(self)@.ticked(now as int),
            final(self)@.game.wf(),
            final(self).control == old(self).control,
            final(self).pending_cmd == old(self).pending_cmd,
            final(self).cmd_processed,
            state.depicts(final(self).game),
            state.drawable(),
    {
        self.fall(now);
        self.obey(now);
        extract_game_state(&self.game)
    }

    /// Whether the score can take what a round at time `now` may add to it.
    pub fn has_score_room(&self, now: u64) -> (room: bool)
        requires
            self@.game.wf(),
            self@.last_update <= now,
        ensures
            room == self@.has_score_room(now as int),
    {
        let mut probe: Session = *self;
        let fall_interval: u64 = ticks_from_millis(FALL_INTERVAL_MS);
        if now - self.last_update >= fall_interval && !self.game.has_score_room() {
            return false;
        }
        if self.cmd_processed || self.pending_cmd != CMD_DOWN {
            return true;
        }
        probe.fall(now);
        probe.game.has_score_room()
    }

    /// Takes note of an event on the connection and tells what to do about it.
    pub fn notify(&mut self, event: LinkEvent<'_>) -> (action: LinkAction)
        ensures
            final(self)@ == old(self)@.notified(event),
            final(self).game == old(self).game,
            final(self).control == old(self).control,
            final(self).last_update == old(self).last_update,
            action == action_for(event),
    {
        match event {
            LinkEvent::Disconnected => LinkAction::Leave,
            LinkEvent::Write { handle, data } => {
                if handle == self.control {
                    if data.len() > 0 {
                        self.pending_cmd = data[0];
                        self.cmd_processed = false;
                    }
                }
                LinkAction::Reply
            },
            LinkEvent::Request => LinkAction::Reply,
            LinkEvent::Other => LinkAction::Proceed,
            LinkEvent::Timeout => LinkAction::Proceed,
        }
    }
}

/// What the player asks for is done in the next round, after the fall that may be due
/// then: left, right, turn, down, and a new game if there is none in progress.
pub proof fn law_commands_do_what_they_say(session: SessionView, event: LinkEvent<'_>, now: int)
    requires
        command_in(event, session.control) is Some,
    ensures
        ({
            let cmd = command_in(event, session.control)->0;
            let before = session.fallen(now).game;
            let after = session.notified(event).ticked(now).game;
            &&& cmd == CMD_LEFT ==> after == before.moved_left()
            &&& cmd == CMD_RIGHT ==> after == before.moved_right()
            &&& cmd == CMD_ROTATE ==> after == before.rotated()
            &&& cmd == CMD_DOWN ==> after == before.moved_down()
            &&& cmd == CMD_START && before.game_over ==> after == GameView::fresh(before.rng)
            &&& cmd == CMD_START && !before.game_over ==> after == before
        }),
{
}

/// Every command is obeyed in the next round, and only once: no command waits after
/// a round.
pub proof fn law_command_is_obeyed_once(session: SessionView, now: int, cmd: u8)
    ensures
        session.ticked(now).cmd_processed,
        !session.ticked(now).awaits(cmd),
{
}

/// A round in which no command waits and the piece does not fall changes nothing.
pub proof fn law_idle_round_changes_nothing(session: SessionView, now: int)
    requires
        session.cmd_processed,
        !session.falls(now),
    ensures
        session.ticked(now) == session,
{
}

/// When no command waits and the interval has passed the piece moves down once, and
/// not again before the interval has passed anew.
pub proof fn law_piece_falls_once_per_interval(session: SessionView, now: int, later: int)
    requires
        session.cmd_processed,
        session.falls(now),
        now <= later < now + FALL_INTERVAL_TICKS,
    ensures
        session.ticked(now).game == session.game.moved_down(),
        session.ticked(now).ticked(later) == session.ticked(now),
{
}

/// A command to move down takes the place of the fall that would have been next: the
/// interval starts anew.
pub proof fn law_down_restarts_the_interval(session: SessionView, now: int, later: int)
    requires
        session.awaits(CMD_DOWN),
        now <= later < now + FALL_INTERVAL_TICKS,
    ensures
        session.ticked(now).last_update == now,
        session.ticked(now).ticked(later) == session.ticked(now),
{
}

/// No fall is late by more than the wait between two rounds. After a round less than the
/// interval has passed since the piece moved down, whatever event comes then; so if the
/// next round follows within the wait, a fall that is due by then comes less than an
/// interval and a wait after the piece moved down last.
pub proof fn law_fall_is_hardly_late(
    session: SessionView,
    now: int,
    event: LinkEvent<'_>,
    next: int,
)
    requires
        session.last_update <= now <= next <= now + WAIT_TICKS,
    ensures
        ({
            let after = session.ticked(now).notified(event);
            &&& now - after.last_update < FALL_INTERVAL_TICKS
            &&& next - after.last_update < FALL_INTERVAL_TICKS + WAIT_TICKS
            &&& after.falls(next) ==> after.ticked(next).last_update == next
            &&& !session.falls(now) && !session.awaits(CMD_DOWN) ==> after.last_update
                == session.last_update
        }),
{
}

/// The clock is looked at again after a wait at the latest, whatever events come and
/// whenever they do, so a fall comes less than an interval and a wait after the piece
/// moved down last: at every round `now`, the one before was at most a wait ago, and a
/// fall that is due happens in it, not yet so late.
pub proof fn law_clock_is_looked_at_often(
    session: SessionView,
    start: int,
    waits: Seq<(Option<int>, LinkEvent<'_>)>,
)
    requires
        session.last_update <= start < session.last_update + FALL_INTERVAL_TICKS + WAIT_TICKS,
    ensures
        ({
            let (at_round, now) = session.run(start, waits);
            &&& waits.len() > 0 ==> {
                let before = session.run(start, waits.drop_last()).1;
                before <= now <= before + WAIT_TICKS
            }
            &&& at_round.last_update <= now < at_round.last_update + FALL_INTERVAL_TICKS
                + WAIT_TICKS
            &&& at_round.falls(now) ==> at_round.fallen(now).game == at_round.game.moved_down()
                && at_round.ticked(now).last_update == now
        }),
    decreases waits.len(),
{
    if waits.len() > 0 {
        law_clock_is_looked_at_often(session, start, waits.drop_last());
        let (at_round, before) = session.run(start, waits.drop_last());
        let (event_at, event) = waits.last();
        law_fall_is_hardly_late(at_round, before, event, wait_ends(before, event_at));
    }
}

/// A command without a meaning is taken note of and otherwise ignored.
pub proof fn law_unknown_command_does_nothing(session: SessionView, now: int)
    requires
        session.pending_cmd == CMD_NONE || session.pending_cmd > CMD_START,
    ensures
        session.obeyed(now) == (SessionView { cmd_processed: true, ..session }),
{
}

/// Start begins a new game where one is over, with the generator going on from where
/// it is, and leaves a game in progress alone.
pub proof fn law_start_needs_game_over(session: SessionView, now: int)
    requires
        session.awaits(CMD_START),
    ensures
        session.obeyed(now).game == if session.game.game_over {
            GameView::fresh(session.game.rng)
        } else {
            session.game
        },
{
}

/// Once the game is over only a start changes it.
pub proof fn law_game_over_waits_for_start(session: SessionView, now: int)
    requires
        session.game.game_over,
    ensures
        session.ticked(now).game == if session.awaits(CMD_START) {
            GameView::fresh(session.game.rng)
        } else {
            session.game
        },
{
    crate::game::law_game_over_is_final(session.game);
}

/// A round keeps the game sound: it can be played on, until it is over the piece lies
/// on no locked cell, and no row stays complete.
pub proof fn law_round_keeps_the_game_sound(session: SessionView, now: int)
    requires
        session.is_sound(),
    ensures
        session.ticked(now).is_sound(),
{
    crate::game::law_moves_keep_the_game_playable(session.game);
    crate::game::law_piece_never_overlaps(session.game);
    crate::game::law_no_row_stays_complete(session.game);
    let game = session.fallen(now).game;
    crate::game::law_moves_keep_the_game_playable(game);
    crate::game::law_piece_never_overlaps(game);
    crate::game::law_no_row_stays_complete(game);
    crate::game::law_new_game_is_sound(game.rng);
}

/// Whatever happens on the connection and whenever the rounds come, a session that
/// begins with a new game stays sound.
pub proof fn law_every_session_stays_sound(
    rng: TetrisRng,
    control: u16,
    start: int,
    rounds: Seq<(int, LinkEvent<'_>)>,
)
    ensures
        SessionView::begun(rng, control, start).played(rounds).is_sound(),
    decreases rounds.len(),
{
    if rounds.len() == 0 {
        crate::game::law_new_game_is_sound(rng);
    } else {
        law_every_session_stays_sound(rng, control, start, rounds.drop_last());
        let before = SessionView::begun(rng, control, start).played(rounds.drop_last());
        law_round_keeps_the_game_sound(before, rounds.last().0);
    }
}

/// Only a score within eight rows of the largest number can run out of room.
pub proof fn law_score_has_room(session: SessionView, now: int)
    requires
        session.game.wf(),
        session.game.is_tidy(),
        session.game.score + 8 * crate::game::ROW_SCORE <= u32::MAX,
    ensures
        session.has_score_room(now),
{
    crate::game::law_score_counts_completed_rows(session.game);
    crate::game::law_no_row_stays_complete(session.game);
    crate::game::law_moves_keep_the_game_playable(session.game);
    crate::game::law_score_counts_completed_rows(session.fallen(now).game);
}

/// The time of the last move down never goes back and is never ahead of the clock.
pub proof fn law_time_goes_forward(session: SessionView, now: int)
    requires
        session.last_update <= now,
    ensures
        session.last_update <= session.ticked(now).last_update <= now,
{
}

/// Of several commands that come before a round the last one counts.
pub proof fn law_last_command_counts(
    session: SessionView,
    first: LinkEvent<'_>,
    second: LinkEvent<'_>,
)
    requires
        command_in(second, session.control) is Some,
    ensures
        session.notified(first).notified(second) == session.notified(second),
        session.notified(second).awaits(command_in(second, session.control)->0),
{
}

/// An event that brings no command leaves the session as it is.
pub proof fn law_other_events_change_nothing(session: SessionView, event: LinkEvent<'_>)
    requires
        command_in(event, session.control) is None,
    ensures
        session.notified(event) == session,
{
}

/// What is said of a session is said of its parts.
pub proof fn law_view_holds_every_part(session: Session)
    ensures
        session@.game == session.game@,
        session@.control == session.control,
        session@.last_update == session.last_update,
        session@.pending_cmd == session.pending_cmd,
        session@.cmd_processed == session.cmd_processed,
{
}

/// A session begins with a new game, listens to the attribute that it was given, counts the
/// time from when it began, and has no command to obey.
pub proof fn law_session_listens_where_it_was_told(rng: TetrisRng, control: u16, start: int)
    ensures
        SessionView::begun(rng, control, start).game == GameView::fresh(rng),
        SessionView::begun(rng, control, start).control == control,
        SessionView::begun(rng, control, start).last_update == start,
        SessionView::begun(rng, control, start).pending_cmd == 0,
        SessionView::begun(rng, control, start).cmd_processed,
{
}

/// Whatever attribute a session was given, a write to it is obeyed in the next round: the
/// first byte tells what is done to the new game. A write to another attribute is not.
pub proof fn law_new_session_obeys_its_control(
    rng: TetrisRng,
    control: u16,
    start: int,
    handle: u16,
    data: &[u8],
    now: int,
)
    requires
        data@.len() > 0,
        start <= now < start + 500_000,
    ensures
        ({
            let begun = SessionView::begun(rng, control, start);
            let told = begun.notified(LinkEvent::Write { handle, data });
            let fresh = GameView::fresh(rng);
            let after = told.ticked(now).game;
            &&& handle == control ==> {
                &&& told.awaits(data@[0])
                &&& told.pending_cmd == data@[0] && !told.cmd_processed
                &&& data@[0] == 1 ==> after == fresh.moved_left()
                &&& data@[0] == 2 ==> after == fresh.moved_right()
                &&& data@[0] == 3 ==> after == fresh.rotated()
                &&& data@[0] == 4 ==> after == fresh.moved_down()
                &&& data@[0] == 0 || data@[0] >= 5 ==> after == fresh
            }
            &&& handle != control ==> told == begun && after == fresh
        }),
{
}

/// A write to the control attribute that is not empty leaves its first byte as the command to
/// obey, and nothing else changes; a write elsewhere, an empty one, and every other event
/// change nothing at all.
pub proof fn law_only_writes_to_control_are_noted(
    session: SessionView,
    handle: u16,
    data: &[u8],
)
    ensures
        ({
            let after = session.notified(LinkEvent::Write { handle, data });
            &&& handle == session.control && data@.len() > 0 ==> after == (SessionView {
                pending_cmd: data@[0],
                cmd_processed: false,
                ..session
            })
            &&& handle != session.control || data@.len() == 0 ==> after == session
        }),
        session.notified(LinkEvent::Disconnected) == session,
        session.notified(LinkEvent::Request) == session,
        session.notified(LinkEvent::Other) == session,
        session.notified(LinkEvent::Timeout) == session,
        command_in(LinkEvent::Write { handle, data }, session.control) is Some <==> handle
            == session.control && data@.len() > 0,
        handle == session.control && data@.len() > 0 ==> command_in(
            LinkEvent::Write { handle, data },
            session.control,
        ) == Some(data@[0]),
{
}

/// Every request gets a reply, only a lost connection ends the game, and the rest is passed
/// over.
pub proof fn law_requests_are_answered(handle: u16, data: &[u8])
    ensures
        action_for(LinkEvent::Disconnected) == LinkAction::Leave,
        action_for(LinkEvent::Write { handle, data }) == LinkAction::Reply,
        action_for(LinkEvent::Request) == LinkAction::Reply,
        action_for(LinkEvent::Other) == LinkAction::Proceed,
        action_for(LinkEvent::Timeout) == LinkAction::Proceed,
{
}

/// What a round does: the piece moves down if half a second, counted in microseconds, has
/// passed since it did last; then the command that waits is obeyed, by its number. The time
/// is noted where the piece moved down, no command waits any more, and the session listens
/// where it did.
pub proof fn law_round_falls_and_then_obeys(session: SessionView, now: int)
    ensures
        ({
            let due = now - session.last_update >= 500_000;
            let fell = if due {
                session.game.moved_down()
            } else {
                session.game
            };
            let waits = |cmd: u8| !session.cmd_processed && session.pending_cmd == cmd;
            let after = session.ticked(now);
            &&& session.falls(now) <==> due
            &&& session.fallen(now).game == fell
            &&& session.fallen(now).last_update == if due {
                now
            } else {
                session.last_update
            }
            &&& session.fallen(now).control == session.control
            &&& session.fallen(now).pending_cmd == session.pending_cmd
            &&& session.fallen(now).cmd_processed == session.cmd_processed
            &&& waits(1) ==> after.game == fell.moved_left()
            &&& waits(2) ==> after.game == fell.moved_right()
            &&& waits(3) ==> after.game == fell.rotated()
            &&& waits(4) ==> after.game == fell.moved_down()
            &&& waits(5) && fell.game_over ==> after.game == GameView::fresh(fell.rng)
            &&& waits(5) && !fell.game_over ==> after.game == fell
            &&& session.cmd_processed || session.pending_cmd == 0 || session.pending_cmd > 5
                ==> after.game == fell
            &&& due || waits(4) ==> after.last_update == now
            &&& !due && !waits(4) ==> after.last_update == session.last_update
            &&& after.cmd_processed
            &&& after.pending_cmd == session.pending_cmd
            &&& after.control == session.control
        }),
{
}

/// Which command waits is told by the byte that came last and whether it has been obeyed.
pub proof fn law_waiting_command_is_the_last_byte(session: SessionView, cmd: u8)
    ensures
        session.awaits(cmd) <==> session.pending_cmd == cmd && !session.cmd_processed,
{
}

/// A round has room for the score exactly if the score fits in 32 bits after the fall that
/// is due and after the command to move down, if one waits.
pub proof fn law_round_room_is_what_32_bits_hold(session: SessionView, now: int)
    ensures
        ({
            let due = now - session.last_update >= 500_000;
            let fell = if due {
                session.game.moved_down()
            } else {
                session.game
            };
            session.has_score_room(now) <==> (due ==> fell.score < 0x1_0000_0000) && (
            session.pending_cmd == 4 && !session.cmd_processed ==> fell.moved_down().score
                < 0x1_0000_0000)
        }),
{
}

/// A wait ends with its event and never before the round it follows, but after a twentieth of
/// a second, counted in microseconds, at the latest.
pub proof fn law_wait_ends_with_the_event(now: int, at: int)
    ensures
        wait_ends(now, None) == now + 50_000,
        now <= wait_ends(now, Some(at)) <= now + 50_000,
        now <= at <= now + 50_000 ==> wait_ends(now, Some(at)) == at,
        at < now ==> wait_ends(now, Some(at)) == now,
        at > now + 50_000 ==> wait_ends(now, Some(at)) == wait_ends(now, None),
{
}

/// Rounds follow each other: no round changes nothing, and one more is a round at its time
/// and then its event.
pub proof fn law_rounds_follow_each_other(
    session: SessionView,
    rounds: Seq<(int, LinkEvent<'_>)>,
    now: int,
    event: LinkEvent<'_>,
)
    ensures
        session.played(Seq::empty()) == session,
        session.played(rounds.push((now, event))) == session.played(rounds).ticked(now).notified(
            event,
        ),
{
    assert(rounds.push((now, event)).drop_last() =~= rounds);
}

/// Waits follow each other: after no wait the round is where it was, and one more wait is a
/// round, its event, and the time at which the wait ends.
pub proof fn law_waits_follow_each_other(
    session: SessionView,
    start: int,
    waits: Seq<(Option<int>, LinkEvent<'_>)>,
    event_at: Option<int>,
    event: LinkEvent<'_>,
)
    ensures
        session.run(start, Seq::empty()) == (session, start),
        session.run(start, waits.push((event_at, event))).0 == session.run(
            start,
            waits,
        ).0.ticked(session.run(start, waits).1).notified(event),
        session.run(start, waits.push((event_at, event))).1 == wait_ends(
            session.run(start, waits).1,
            event_at,
        ),
{
    assert(waits.push((event_at, event)).drop_last() =~= waits);
}

/// A sound session has its piece on the board, on no locked cell unless the game is over, and
/// an empty cell in every row.
pub proof fn law_sound_means_in_order(session: SessionView)
    ensures
        session.is_sound() <==> session.game.wf() && session.game.is_apart()
            && session.game.is_tidy(),
{
}

} // verus!

use vstd::prelude::*;

use crate::figure::{Figure, MAX_ROLL};
use crate::game::{after_capture, is_first_with_code, is_next_unfinished, is_state_of, ranking_wf, Game};
use crate::player::{all_home, completion_flag_after, completion_signal, figures_after_move, has_movable, GamePlayer};
use crate::{GameResponse, Outgoing};

verus! {

/// Attempts a player gets in one turn to roll a figure out of the start.
pub const MAX_ATTEMPTS: usize = 3;

/// Where the turn protocol stands.
#[derive(Debug, PartialEq, Eq)]
pub enum GameState {
    /// The active player's connection is gone; `prev_state` resumes once a player rejoins.
    WaitingForReconnect { prev_state: Box<GameState> },
    /// The active player is to roll; `attempt` rolls of this turn have brought nothing.
    StartTurn { attempt: usize },
    /// The active player rolled `value` and is to choose a figure to move.
    Rolled { value: usize },
    /// The turn is over: record a finish, end the game, or pass the turn on.
    MoveToNextTurn,
    /// The game is over.
    Done,
}

/// What the protocol waits for in a state.
#[derive(Debug, Clone, Copy, PartialEq, Eq, Structural)]
pub enum Awaits {
    /// A request of the active player.
    ActivePlayer,
    /// A connection that asks to rejoin.
    Reconnection,
    /// Nothing: the step runs at once.
    Nothing,
    /// Nothing ever again: the game is over.
    End,
}

/// One input to the turn protocol.
pub enum Event<Tx, Rx> {
    /// The active player asked to roll, and the die showed `value`.
    Roll { value: usize },
    /// The active player asked to move figure `figure`.
    Move { figure: usize },
    /// The active player's connection failed or was closed.
    Disconnected,
    /// A new connection asks for the place of the player with rejoin code `code`.
    Rejoin { code: u128, send: Tx, recv: Rx },
    /// No input; for a state that awaits none.
    Nothing,
}

impl GameState {
    /// A state that a game can stand in: a pending move holds a face of the die, and a
    /// suspended state is itself one that can resume.
    pub open spec fn wf(&self) -> bool
        decreases self,
    {
        match self {
            GameState::WaitingForReconnect { prev_state } => prev_state.wf(),
            GameState::Rolled { value } => 1 <= *value <= MAX_ROLL,
            _ => true,
        }
    }

    /// The input that a step from this state consumes.
    pub open spec fn awaits_spec(&self) -> Awaits {
        match self {
            GameState::WaitingForReconnect { .. } => Awaits::Reconnection,
            GameState::StartTurn { .. } => Awaits::ActivePlayer,
            GameState::Rolled { .. } => Awaits::ActivePlayer,
            GameState::MoveToNextTurn => Awaits::Nothing,
            GameState::Done => Awaits::End,
        }
    }

    /// The input that a step from this state consumes.
    pub fn awaits(&self) -> (r: Awaits)
        ensures
            r == self.awaits_spec(),
    {
        match self {
            GameState::WaitingForReconnect { .. } => Awaits::Reconnection,
            GameState::StartTurn { .. } => Awaits::ActivePlayer,
            GameState::Rolled { .. } => Awaits::ActivePlayer,
            GameState::MoveToNextTurn => Awaits::Nothing,
            GameState::Done => Awaits::End,
        }
    }
}

/// Some figure of `figs` waits in the start.
pub open spec fn has_start(figs: Seq<Figure>) -> bool {
    exists|i: int| 0 <= i < figs.len() && (#[trigger] figs[i]) is InStart
}

/// A figure waits in the start while another blocks the entry square: that one has to move on.
pub open spec fn entry_jammed(figs: Seq<Figure>) -> bool {
    has_start(figs) && figs.contains(Figure::OnField { moved: 0 })
}

/// `j` is the first index in `figs` of `target`.
pub open spec fn is_first_index(figs: Seq<Figure>, target: Figure, j: int) -> bool {
    &&& 0 <= j < figs.len()
    &&& figs[j] == target
    &&& forall|k: int| 0 <= k < j ==> figs[k] != target
}

/// The first index in `figs` of `target`, where it occurs.
pub open spec fn first_index(figs: Seq<Figure>, target: Figure) -> int {
    choose|j: int| is_first_index(figs, target, j)
}

/// Whether the roll is answered with the offer to choose a figure to move.
pub open spec fn can_move_after(figs: Seq<Figure>, value: int) -> bool {
    has_movable(figs) && !entry_jammed(figs) && !(value == MAX_ROLL && has_start(figs))
}

/// `f` is `g` after the active player `a` has moved to figures `figs` with completion flag
/// `done`, and every figure of another player on a track cell that `a` holds went back to
/// the start.
pub open spec fn moved_and_resolved<R, Tx, Rx>(
    g: Game<R, Tx, Rx>,
    f: Game<R, Tx, Rx>,
    figs: Seq<Figure>,
    done: bool,
) -> bool {
    let a = g.next_player as int;
    &&& f.id == g.id
    &&& f.next_player == g.next_player
    &&& f.rng == g.rng
    &&& f.ranking == g.ranking
    &&& f.players@.len() == g.players@.len()
    &&& forall|p: int|
        0 <= p < g.players@.len() ==> {
            &&& (#[trigger] f.players@[p]).name == g.players@[p].name
            &&& f.players@[p].send == g.players@[p].send
            &&& f.players@[p].recv == g.players@[p].recv
            &&& f.players@[p].rejoin_code == g.players@[p].rejoin_code
        }
    &&& f.players@[a].figures@ == figs
    &&& f.players@[a].done == done
    &&& forall|p: int|
        0 <= p < g.players@.len() && p != a ==> (#[trigger] f.players@[p]).done == g.players@[p].done
    &&& forall|p: int, i: int|
        0 <= p < g.players@.len() && p != a && 0 <= i < 4 ==> #[trigger] f.players@[p].figures@[i]
            == after_capture(g.players@[p].figures@[i], p, figs, a)
}

/// `msgs` from index `k` on: the new state for everyone, then, where the active player
/// `a` is to roll again, the turn for it.
pub open spec fn state_then_turn<Tx, Rx>(
    msgs: Seq<Outgoing>,
    k: int,
    players: Seq<GamePlayer<Tx, Rx>>,
    a: int,
    again: bool,
) -> bool {
    &&& msgs.len() == if again { k + 2 } else { k + 1 }
    &&& msgs[k] matches Outgoing::ToAll { response } && is_state_of(response, players)
    &&& again ==> msgs[k + 1] == (Outgoing::ToPlayer { player: a as usize, response: GameResponse::Turn })
}

/// What a roll of `value` at attempt `attempt` does to game `g`, giving `f`, next state
/// `next` and messages `msgs`.
pub open spec fn roll_outcome<R, Tx, Rx>(
    attempt: usize,
    value: usize,
    g: Game<R, Tx, Rx>,
    f: Game<R, Tx, Rx>,
    next: GameState,
    msgs: Seq<Outgoing>,
) -> bool {
    let a = g.next_player as int;
    let figs = g.players@[a].figures@;
    let six = value == MAX_ROLL;
    &&& msgs.len() >= 1
    &&& msgs[0] == (Outgoing::ToPlayer {
        player: a as usize,
        response: GameResponse::Rolled { value, can_move: can_move_after(figs, value as int) },
    })
    &&& if entry_jammed(figs) {
        let moved = figures_after_move(figs, first_index(figs, Figure::OnField { moved: 0 }), value as int);
        &&& moved_and_resolved(g, f, moved, g.players@[a].done)
        &&& next == if six { GameState::StartTurn { attempt: 0 } } else { GameState::MoveToNextTurn }
        &&& state_then_turn(msgs, 1, f.players@, a, six)
    } else if six && has_start(figs) {
        let moved = figs.update(first_index(figs, Figure::InStart), Figure::OnField { moved: 0 });
        &&& moved_and_resolved(g, f, moved, g.players@[a].done)
        &&& next == GameState::StartTurn { attempt: 0 }
        &&& state_then_turn(msgs, 1, f.players@, a, true)
    } else if has_movable(figs) {
        &&& f == g
        &&& next == GameState::Rolled { value }
        &&& msgs.len() == 1
    } else {
        &&& f == g
        &&& next == if attempt + 1 >= MAX_ATTEMPTS {
            GameState::MoveToNextTurn
        } else {
            GameState::StartTurn { attempt: (attempt + 1) as usize }
        }
        &&& msgs.len() == if attempt + 1 >= MAX_ATTEMPTS { 1int } else { 2 }
        &&& attempt + 1 < MAX_ATTEMPTS ==> msgs[1] == (Outgoing::ToPlayer {
            player: a as usize,
            response: GameResponse::Turn,
        })
    }
}

/// What moving figure `figure` by the rolled `value` does to game `g`.
pub open spec fn move_outcome_of<R, Tx, Rx>(
    value: usize,
    figure: usize,
    g: Game<R, Tx, Rx>,
    f: Game<R, Tx, Rx>,
    next: GameState,
    msgs: Seq<Outgoing>,
) -> bool {
    let a = g.next_player as int;
    let figs = g.players@[a].figures@;
    let moved = figures_after_move(figs, figure as int, value as int);
    let finished = completion_signal(g.players@[a].done, moved);
    let again = value == MAX_ROLL && !finished;
    &&& moved_and_resolved(g, f, moved, completion_flag_after(g.players@[a].done, moved))
    &&& next == if again { GameState::StartTurn { attempt: 0 } } else { GameState::MoveToNextTurn }
    &&& state_then_turn(msgs, 0, f.players@, a, again)
}

/// What the end of a turn does to game `g`: the active player is marked finished if all
/// its figures are home; a player that has finished and is not yet ranked is appended to the
/// ranking and announced; then the game ends if every player has finished, or the turn
/// passes to the next player that has not.
pub open spec fn turn_end_outcome<R, Tx, Rx>(
    g: Game<R, Tx, Rx>,
    f: Game<R, Tx, Rx>,
    next: GameState,
    msgs: Seq<Outgoing>,
) -> bool {
    let a = g.next_player;
    let done = completion_flag_after(g.players@[a as int].done, g.players@[a as int].figures@);
    let players = g.players@.update(a as int, GamePlayer { done, ..g.players@[a as int] });
    let newly = done && !g.ranking@.contains(a);
    let ranking = if newly { g.ranking@.push(a) } else { g.ranking@ };
    let k: int = if newly { 1 } else { 0 };
    let all_done = forall|p: int| 0 <= p < players.len() ==> (#[trigger] players[p]).done;
    &&& f.players@ == players
    &&& f.id == g.id
    &&& f.rng == g.rng
    &&& f.ranking@ == ranking
    &&& msgs.len() == k + 1
    &&& newly ==> msgs[0] == (Outgoing::ToAll { response: GameResponse::PlayerDone { player: a } })
    &&& if all_done {
        &&& f.next_player == g.next_player
        &&& next == GameState::Done
        &&& msgs[k] matches Outgoing::ToAll { response } && response matches GameResponse::GameDone {
            ranking: r,
        } && r@ == ranking
    } else {
        &&& is_next_unfinished(players, a as int, f.next_player as int)
        &&& next == GameState::StartTurn { attempt: 0 }
        &&& msgs[k] == (Outgoing::ToPlayer { player: f.next_player, response: GameResponse::Turn })
    }
}

/// What a rejoin with code `code` and channel halves `send` and `recv` does while the
/// game waits, suspended in `prev`.
pub open spec fn rejoin_outcome<R, Tx, Rx>(
    prev: GameState,
    code: u128,
    send: Tx,
    recv: Rx,
    g: Game<R, Tx, Rx>,
    f: Game<R, Tx, Rx>,
    next: GameState,
    msgs: Seq<Outgoing>,
) -> bool {
    if exists|p: int| 0 <= p < g.players@.len() && (#[trigger] g.players@[p]).rejoin_code == code {
        exists|p: usize| {
            &&& #[trigger] is_first_with_code(g.players@, code, Some(p))
            &&& f.id == g.id
            &&& f.next_player == g.next_player
            &&& f.rng == g.rng
            &&& f.ranking == g.ranking
            &&& f.players@ == g.players@.update(p as int, GamePlayer { send, recv, ..g.players@[p as int] })
            &&& next == prev
            &&& msgs.len() == if prev is StartTurn { 3int } else { 2 }
            &&& msgs[0] matches Outgoing::ToAll { response } && is_state_of(response, f.players@)
            &&& msgs[1] == Outgoing::Identify
            &&& prev is StartTurn ==> msgs[2] == (Outgoing::ToPlayer {
                player: g.next_player,
                response: GameResponse::Turn,
            })
        }
    } else {
        &&& f == g
        &&& next == (GameState::WaitingForReconnect { prev_state: Box::new(prev) })
        &&& msgs.len() == 0
    }
}

/// What one step from `prev` on input `event` does to game `g`, giving `f` and result `r`.
pub open spec fn step_outcome<R, Tx, Rx>(
    prev: GameState,
    event: Event<Tx, Rx>,
    g: Game<R, Tx, Rx>,
    f: Game<R, Tx, Rx>,
    r: Option<(GameState, Vec<Outgoing>)>,
) -> bool {
    let a = g.next_player;
    match prev {
        GameState::Done => r is None && f == g,
        GameState::StartTurn { attempt } => r matches Some((next, msgs)) && match event {
            Event::Roll { value } => roll_outcome(attempt, value, g, f, next, msgs@),
            Event::Move { .. } => {
                &&& f == g
                &&& next == prev
                &&& msgs@ == seq![Outgoing::ToPlayer { player: a, response: GameResponse::Turn }]
            },
            Event::Disconnected => {
                &&& f == g
                &&& next == (GameState::WaitingForReconnect { prev_state: Box::new(prev) })
                &&& msgs@.len() == 0
            },
            _ => f == g && next == prev && msgs@.len() == 0,
        },
        GameState::Rolled { value } => r matches Some((next, msgs)) && match event {
            Event::Move { figure } => move_outcome_of(value, figure, g, f, next, msgs@),
            Event::Disconnected => {
                &&& f == g
                &&& next == (GameState::WaitingForReconnect { prev_state: Box::new(prev) })
                &&& msgs@.len() == 0
            },
            _ => f == g && next == prev && msgs@.len() == 0,
        },
        GameState::MoveToNextTurn => r matches Some((next, msgs)) && turn_end_outcome(g, f, next, msgs@),
        GameState::WaitingForReconnect { prev_state } => r matches Some((next, msgs)) && match event {
            Event::Rejoin { code, send, recv } => rejoin_outcome(*prev_state, code, send, recv, g, f, next, msgs@),
            _ => f == g && next == prev && msgs@.len() == 0,
        },
    }
}

/// The first index in `figs` of `target`.
fn first_index_of(figs: &[Figure; 4], target: Figure) -> (r: Option<usize>)
    ensures
        match r {
            Some(j) => is_first_index(figs@, target, j as int) && j == first_index(figs@, target),
            None => !figs@.contains(target),
        },
{
    let mut j: usize = 0;
    while j < 4
        invariant
            j <= 4,
            forall|k: int| 0 <= k < j ==> figs@[k] != target,
        decreases 4 - j,
    {
        if figs[j] == target {
            proof {
                assert(is_first_index(figs@, target, j as int));
                let c = first_index(figs@, target);
                assert(is_first_index(figs@, target, c));
                assert(c == j);
            }
            return Some(j);
        }
        j += 1;
    }
    None
}

/// Whether `a` stands in `ranking`.
fn ranked(ranking: &Vec<usize>, a: usize) -> (r: bool)
    ensures
        r == ranking@.contains(a),
{
    let mut k: usize = 0;
    while k < ranking.len()
        invariant
            k <= ranking@.len(),
            forall|l: int| 0 <= l < k ==> ranking@[l] != a,
        decreases ranking@.len() - k,
    {
        if ranking[k] == a {
            assert(ranking@[k as int] == a);
            return true;
        }
        k += 1;
    }
    false
}

/// The active player rolled `value` at attempt `attempt`.
fn roll<R, Tx, Rx>(game: &mut Game<R, Tx, Rx>, attempt: usize, value: usize) -> (r: (GameState, Vec<Outgoing>))
    requires
        old(game).wf(),
        1 <= value <= MAX_ROLL,
    ensures
        final(game).wf(),
        final(game).ranking == old(game).ranking,
        r.0.wf(),
        roll_outcome(attempt, value, *old(game), *final(game), r.0, r.1@),
{
    let a = game.next_player;
    let figs = game.players[a].figures;
    let start = game.players[a].has_figures_in_start();
    let movable = game.players[a].has_moveable_figure();
    let entry = first_index_of(&figs, Figure::OnField { moved: 0 });
    let jammed = start && entry.is_some();
    let can_move = movable && !jammed && !(value == MAX_ROLL && start);
    let mut msgs: Vec<Outgoing> = Vec::new();
    msgs.push(Outgoing::ToPlayer { player: a, response: GameResponse::Rolled { value, can_move } });
    if jammed {
        let j = match entry {
            Some(j) => j,
            None => 0,
        };
        let _ = game.players[a].move_figure(j, value);
        game.check_move(a);
        msgs.push(Outgoing::ToAll { response: game.state_response() });
        if value == MAX_ROLL {
            msgs.push(Outgoing::ToPlayer { player: a, response: GameResponse::Turn });
            (GameState::StartTurn { attempt: 0 }, msgs)
        } else {
            (GameState::MoveToNextTurn, msgs)
        }
    } else if value == MAX_ROLL && start {
        let s = match first_index_of(&figs, Figure::InStart) {
            Some(s) => s,
            None => 0,
        };
        game.players[a].figures[s] = Figure::OnField { moved: 0 };
        game.check_move(a);
        msgs.push(Outgoing::ToAll { response: game.state_response() });
        msgs.push(Outgoing::ToPlayer { player: a, response: GameResponse::Turn });
        (GameState::StartTurn { attempt: 0 }, msgs)
    } else if movable {
        (GameState::Rolled { value }, msgs)
    } else if attempt >= MAX_ATTEMPTS - 1 {
        (GameState::MoveToNextTurn, msgs)
    } else {
        msgs.push(Outgoing::ToPlayer { player: a, response: GameResponse::Turn });
        (GameState::StartTurn { attempt: attempt + 1 }, msgs)
    }
}

/// The active player chose figure `figure` to move by the rolled `value`.
fn move_chosen<R, Tx, Rx>(game: &mut Game<R, Tx, Rx>, value: usize, figure: usize) -> (r: (GameState, Vec<Outgoing>))
    requires
        old(game).wf(),
        1 <= value <= MAX_ROLL,
    ensures
        final(game).wf(),
        final(game).ranking == old(game).ranking,
        r.0.wf(),
        move_outcome_of(value, figure, *old(game), *final(game), r.0, r.1@),
{
    let a = game.next_player;
    let _ = game.players[a].move_figure(figure, value);
    game.check_move(a);
    let finished = game.players[a].check_done();
    let mut msgs: Vec<Outgoing> = Vec::new();
    msgs.push(Outgoing::ToAll { response: game.state_response() });
    if value == MAX_ROLL && !finished {
        msgs.push(Outgoing::ToPlayer { player: a, response: GameResponse::Turn });
        (GameState::StartTurn { attempt: 0 }, msgs)
    } else {
        (GameState::MoveToNextTurn, msgs)
    }
}

/// The turn is over.
fn end_turn<R, Tx, Rx>(game: &mut Game<R, Tx, Rx>) -> (r: (GameState, Vec<Outgoing>))
    requires
        old(game).wf(),
    ensures
        final(game).wf(),
        r.0.wf(),
        turn_end_outcome(*old(game), *final(game), r.0, r.1@),
{
    let a = game.next_player;
    let ghost g = *game;
    let _ = game.players[a].check_done();
    assert(game.players@ =~= g.players@.update(
        a as int,
        GamePlayer { done: completion_flag_after(g.players@[a as int].done, g.players@[a as int].figures@), ..g.players@[a as int] },
    ));
    let mut msgs: Vec<Outgoing> = Vec::new();
    if game.players[a].done && !ranked(&game.ranking, a) {
        game.ranking.push(a);
        msgs.push(Outgoing::ToAll { response: GameResponse::PlayerDone { player: a } });
    }
    if game.is_done() {
        let ranking = game.ranking.clone();
        assert(ranking@ =~= game.ranking@);
        msgs.push(Outgoing::ToAll { response: GameResponse::GameDone { ranking } });
        (GameState::Done, msgs)
    } else {
        game.advance_turn();
        msgs.push(Outgoing::ToPlayer { player: game.next_player, response: GameResponse::Turn });
        (GameState::StartTurn { attempt: 0 }, msgs)
    }
}

/// A connection asks, with code `code`, for a player's place while the game waits in `prev`.
fn rejoin<R, Tx, Rx>(game: &mut Game<R, Tx, Rx>, prev: GameState, code: u128, send: Tx, recv: Rx) -> (r: (
    GameState,
    Vec<Outgoing>,
))
    requires
        old(game).wf(),
        prev.wf(),
    ensures
        final(game).wf(),
        final(game).ranking == old(game).ranking,
        r.0.wf(),
        rejoin_outcome(prev, code, send, recv, *old(game), *final(game), r.0, r.1@),
{
    let turn = matches!(prev, GameState::StartTurn { .. });
    let ghost g = *game;
    match game.find_rejoin(code) {
        Some(p) => {
            game.players[p].send = send;
            game.players[p].recv = recv;
            assert(game.players@ =~= g.players@.update(p as int, GamePlayer { send, recv, ..g.players@[p as int] }));
            let mut msgs: Vec<Outgoing> = Vec::new();
            msgs.push(Outgoing::ToAll { response: game.state_response() });
            msgs.push(Outgoing::Identify);
            if turn {
                msgs.push(Outgoing::ToPlayer { player: game.next_player, response: GameResponse::Turn });
            }
            assert(is_first_with_code(g.players@, code, Some(p)));
            (prev, msgs)
        },
        None => (GameState::WaitingForReconnect { prev_state: Box::new(prev) }, Vec::new()),
    }
}

/// One step of the turn protocol: from state `prev`, with the input `event`, to the next
/// state and the messages to deliver, in order. `None` once the game is over.
pub fn step<R, Tx, Rx>(prev: GameState, game: &mut Game<R, Tx, Rx>, event: Event<Tx, Rx>) -> (r: Option<
    (GameState, Vec<Outgoing>),
>)
    requires
        old(game).wf(),
        prev.wf(),
        event matches Event::Roll { value } ==> 1 <= value <= MAX_ROLL,
    ensures
        final(game).wf(),
        ranking_wf(final(game).ranking@, final(game).players@),
        old(game).ranking@.is_prefix_of(final(game).ranking@),
        r matches Some((next, _)) ==> next.wf(),
        step_outcome(prev, event, *old(game), *final(game), r),
{
    match prev {
        GameState::Done => None,
        GameState::StartTurn { attempt } => match event {
            Event::Roll { value } => Some(roll(game, attempt, value)),
            Event::Move { .. } => {
                let mut msgs: Vec<Outgoing> = Vec::new();
                msgs.push(Outgoing::ToPlayer { player: game.next_player, response: GameResponse::Turn });
                Some((GameState::StartTurn { attempt }, msgs))
            },
            Event::Disconnected => Some(
                (GameState::WaitingForReconnect { prev_state: Box::new(GameState::StartTurn { attempt }) }, Vec::new()),
            ),
            _ => Some((GameState::StartTurn { attempt }, Vec::new())),
        },
        GameState::Rolled { value } => match event {
            Event::Move { figure } => Some(move_chosen(game, value, figure)),
            Event::Disconnected => Some(
                (GameState::WaitingForReconnect { prev_state: Box::new(GameState::Rolled { value }) }, Vec::new()),
            ),
            _ => Some((GameState::Rolled { value }, Vec::new())),
        },
        GameState::MoveToNextTurn => Some(end_turn(game)),
        GameState::WaitingForReconnect { prev_state } => match event {
            Event::Rejoin { code, send, recv } => Some(rejoin(game, *prev_state, code, send, recv)),
            _ => Some((GameState::WaitingForReconnect { prev_state }, Vec::new())),
        },
    }
}

/// Where no two players share a rejoin code, a rejoin with player `i`'s code while the game
/// waits resumes the suspended state unchanged and gives player `i`, and only it, the new
/// channel halves; figures, completion flags, turn and ranking stay.
pub proof fn lemma_rejoin_reattaches_holder<R, Tx, Rx>(
    prev: GameState,
    code: u128,
    send: Tx,
    recv: Rx,
    g: Game<R, Tx, Rx>,
    f: Game<R, Tx, Rx>,
    next: GameState,
    msgs: Seq<Outgoing>,
    i: int,
)
    requires
        0 <= i < g.players@.len(),
        g.players@[i].rejoin_code == code,
        forall|j: int, k: int|
            0 <= j < g.players@.len() && 0 <= k < g.players@.len() && j != k ==> (#[trigger] g.players@[j]).rejoin_code
                != (#[trigger] g.players@[k]).rejoin_code,
        rejoin_outcome(prev, code, send, recv, g, f, next, msgs),
    ensures
        next == prev,
        f.players@.len() == g.players@.len(),
        f.players@[i].send == send,
        f.players@[i].recv == recv,
        f.players@[i].name == g.players@[i].name,
        f.players@[i].figures == g.players@[i].figures,
        f.players@[i].done == g.players@[i].done,
        f.players@[i].rejoin_code == code,
        forall|j: int| 0 <= j < g.players@.len() && j != i ==> #[trigger] f.players@[j] == g.players@[j],
        f.next_player == g.next_player,
        f.ranking == g.ranking,
{
    assert(g.players@[i].rejoin_code == code);
    let p = choose|p: usize| #[trigger] is_first_with_code(g.players@, code, Some(p)) && {
        &&& f.id == g.id
        &&& f.next_player == g.next_player
        &&& f.rng == g.rng
        &&& f.ranking == g.ranking
        &&& f.players@ == g.players@.update(p as int, GamePlayer { send, recv, ..g.players@[p as int] })
        &&& next == prev
        &&& msgs.len() == if prev is StartTurn { 3int } else { 2 }
        &&& msgs[0] matches Outgoing::ToAll { response } && is_state_of(response, f.players@)
        &&& msgs[1] == Outgoing::Identify
        &&& prev is StartTurn ==> msgs[2] == (Outgoing::ToPlayer {
            player: g.next_player,
            response: GameResponse::Turn,
        })
    };
    assert(p == i);
}

/// When the last player that has not finished ends its turn with all figures home, it is
/// ranked last, everyone hears first that it finished and then the whole ranking, and the
/// game is over.
pub proof fn lemma_last_finish_ends_game<R, Tx, Rx>(
    g: Game<R, Tx, Rx>,
    f: Game<R, Tx, Rx>,
    next: GameState,
    msgs: Seq<Outgoing>,
)
    requires
        g.wf(),
        all_home(g.players@[g.next_player as int].figures@),
        !g.ranking@.contains(g.next_player),
        forall|p: int| 0 <= p < g.players@.len() && p != g.next_player ==> (#[trigger] g.players@[p]).done,
        turn_end_outcome(g, f, next, msgs),
    ensures
        f.ranking@ == g.ranking@.push(g.next_player),
        next == GameState::Done,
        msgs.len() == 2,
        msgs[0] == (Outgoing::ToAll { response: GameResponse::PlayerDone { player: g.next_player } }),
        msgs[1] matches Outgoing::ToAll { response } && response matches GameResponse::GameDone {
            ranking: r,
        } && r@ == f.ranking@,
{
    let a = g.next_player as int;
    let done = completion_flag_after(g.players@[a].done, g.players@[a].figures@);
    let players = g.players@.update(a, GamePlayer { done, ..g.players@[a] });
    assert(done);
    assert forall|p: int| 0 <= p < players.len() implies (#[trigger] players[p]).done by {
        if p != a {
            assert(g.players@[p].done);
        }
    }
}

} // verus!

use ludo::{Figure, GamePlayer};

fn player_with(figures: [Figure; 4]) -> GamePlayer<(), ()> {
    GamePlayer { name: "test".to_string(), figures, send: (), recv: (), rejoin_code: 1, done: false }
}

#[test]
fn has_moveable() {
    {
        let player = player_with([Figure::InStart, Figure::InStart, Figure::InStart, Figure::InStart]);
        assert!(!player.has_moveable_figure());
    }
    {
        let player = player_with([Figure::OnField { moved: 0 }, Figure::InStart, Figure::InStart, Figure::InStart]);
        assert!(player.has_moveable_figure());
    }
    {
        let player = player_with([Figure::InHouse { pos: 3 }, Figure::InStart, Figure::InStart, Figure::InStart]);
        assert!(!player.has_moveable_figure());
    }
    {
        let player = player_with([Figure::InHouse { pos: 2 }, Figure::InStart, Figure::InStart, Figure::InStart]);
        assert!(player.has_moveable_figure());
    }
}

#[test]
fn new_player_starts_with_all_figures_in_start() {
    let player: GamePlayer<u8, u16> = GamePlayer::new("ann".to_string(), (3, 4));
    assert_eq!(player.name, "ann");
    assert_eq!(player.send, 3);
    assert_eq!(player.recv, 4);
    assert_eq!(player.figures, [Figure::InStart; 4]);
    assert!(!player.is_done());
    assert!(player.has_figures_in_start());
    assert!(player.has_figures_left());
    assert!(!player.has_figures_on_field());
}

#[test]
fn rejoin_codes_differ_between_players() {
    let a: GamePlayer<(), ()> = GamePlayer::new("a".to_string(), ((), ()));
    let b: GamePlayer<(), ()> = GamePlayer::new("b".to_string(), ((), ()));
    assert_ne!(a.rejoin_code, b.rejoin_code);
}

#[test]
fn figure_queries() {
    let player = player_with([
        Figure::InHouse { pos: 0 },
        Figure::InHouse { pos: 1 },
        Figure::InHouse { pos: 2 },
        Figure::InHouse { pos: 3 },
    ]);
    assert!(!player.has_figures_left());
    assert!(player.has_figures_on_field());
    assert!(!player.has_figures_in_start());
    assert!(!player.has_moveable_figure());
}

#[test]
fn move_on_track_and_into_home() {
    let mut player = player_with([
        Figure::OnField { moved: 38 },
        Figure::OnField { moved: 5 },
        Figure::InStart,
        Figure::InHouse { pos: 2 },
    ]);
    assert_eq!(player.move_figure(1, 4), Some(Figure::OnField { moved: 9 }));
    assert_eq!(player.move_figure(0, 3), Some(Figure::InHouse { pos: 1 }));
    assert_eq!(
        player.figures,
        [Figure::InHouse { pos: 1 }, Figure::OnField { moved: 9 }, Figure::InStart, Figure::InHouse { pos: 2 }]
    );
}

#[test]
fn move_onto_own_figure_is_refused() {
    let figures = [Figure::OnField { moved: 3 }, Figure::OnField { moved: 5 }, Figure::InStart, Figure::InStart];
    let mut player = player_with(figures);
    assert_eq!(player.move_figure(0, 2), None);
    assert_eq!(player.figures, figures);
}

#[test]
fn move_past_home_row_is_refused() {
    let figures = [Figure::OnField { moved: 38 }, Figure::InHouse { pos: 2 }, Figure::InStart, Figure::InStart];
    let mut player = player_with(figures);
    assert_eq!(player.move_figure(0, 6), None);
    assert_eq!(player.move_figure(1, 2), None);
    assert_eq!(player.figures, figures);
}

#[test]
fn move_of_figure_in_start_or_out_of_range_is_refused() {
    let figures = [Figure::InStart, Figure::OnField { moved: 1 }, Figure::InStart, Figure::InStart];
    let mut player = player_with(figures);
    assert_eq!(player.move_figure(0, 6), None);
    assert_eq!(player.move_figure(4, 1), None);
    assert_eq!(player.figures, figures);
}

#[test]
fn completion_reported_once() {
    let mut player = player_with([
        Figure::InHouse { pos: 0 },
        Figure::InHouse { pos: 1 },
        Figure::InHouse { pos: 2 },
        Figure::OnField { moved: 39 },
    ]);
    assert!(!player.check_done());
    assert!(!player.is_done());
    assert_eq!(player.move_figure(3, 4), Some(Figure::InHouse { pos: 3 }));
    assert!(player.check_done());
    assert!(player.is_done());
    assert!(!player.check_done());
    assert!(player.is_done());
}

#[test]
fn home_figures_packed_at_top_cannot_move() {
    let player = player_with([Figure::InHouse { pos: 2 }, Figure::InHouse { pos: 3 }, Figure::InStart, Figure::InStart]);
    assert!(!player.has_moveable_figure());
    let player = player_with([Figure::InHouse { pos: 1 }, Figure::InHouse { pos: 3 }, Figure::InStart, Figure::InStart]);
    assert!(player.has_moveable_figure());
    let player = player_with([Figure::InHouse { pos: 0 }, Figure::InHouse { pos: 2 }, Figure::InHouse { pos: 3 }, Figure::InStart]);
    assert!(player.has_moveable_figure());
    let player = player_with([Figure::InHouse { pos: 1 }, Figure::InHouse { pos: 2 }, Figure::InHouse { pos: 3 }, Figure::InStart]);
    assert!(!player.has_moveable_figure());
}

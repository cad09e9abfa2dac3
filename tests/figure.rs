use ludo::{apply_move, cell_of, DumbDistr, Figure, MockRand};

#[test]
fn apply_move_on_track() {
    assert_eq!(apply_move(Figure::OnField { moved: 0 }, 6), Figure::OnField { moved: 6 });
    assert_eq!(apply_move(Figure::OnField { moved: 33 }, 6), Figure::OnField { moved: 39 });
}

#[test]
fn apply_move_into_home_row() {
    assert_eq!(apply_move(Figure::OnField { moved: 39 }, 1), Figure::InHouse { pos: 0 });
    assert_eq!(apply_move(Figure::OnField { moved: 38 }, 5), Figure::InHouse { pos: 3 });
    assert_eq!(apply_move(Figure::InHouse { pos: 1 }, 2), Figure::InHouse { pos: 3 });
}

#[test]
fn apply_move_overshoot_keeps_figure() {
    assert_eq!(apply_move(Figure::OnField { moved: 38 }, 6), Figure::OnField { moved: 38 });
    assert_eq!(apply_move(Figure::InHouse { pos: 3 }, 1), Figure::InHouse { pos: 3 });
    assert_eq!(apply_move(Figure::InHouse { pos: 2 }, 2), Figure::InHouse { pos: 2 });
}

#[test]
fn apply_move_leaves_start() {
    assert_eq!(apply_move(Figure::InStart, 6), Figure::InStart);
}

#[test]
fn apply_move_never_leaves_board() {
    for amount in 1..=6usize {
        for moved in 0..40usize {
            match apply_move(Figure::OnField { moved }, amount) {
                Figure::OnField { moved: m } => assert!(m < 40),
                Figure::InHouse { pos } => assert!(pos < 4),
                Figure::InStart => panic!("a figure on the track does not go back by itself"),
            }
        }
        for pos in 0..4usize {
            match apply_move(Figure::InHouse { pos }, amount) {
                Figure::InHouse { pos: p } => assert!(p < 4),
                other => panic!("left the home row: {:?}", other),
            }
        }
    }
}

#[test]
fn board_cells() {
    assert_eq!(cell_of(0, 15), 15);
    assert_eq!(cell_of(1, 35), 5);
    assert_eq!(cell_of(3, 9), 39);
    assert_eq!(cell_of(5, 0), 10);
}

#[test]
fn dice_from_list() {
    let mut rng = MockRand::new(vec![5, 3, 0, 13]);
    let die = DumbDistr {};
    assert_eq!(die.sample(&mut rng), 6);
    assert_eq!(die.sample(&mut rng), 4);
    assert_eq!(rng.next_u32(), 0);
    assert_eq!(rng.next_u64(), 13);
}

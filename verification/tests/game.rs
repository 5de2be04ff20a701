use trail_chase::colour::Colour;
use trail_chase::constants::{GRID_HEIGHT, GRID_WIDTH};
use trail_chase::direction::Direction;
use trail_chase::game::{draw_picks, Baddie, Ending, Key, MyGame, Player, Speed, State};
use trail_chase::position::Position;

const CYAN: Colour = Colour { r: 0, g: 255, b: 255, a: 51 };
const RED: Colour = Colour { r: 51, g: 0, b: 0, a: 51 };
const BLACK: Colour = Colour { r: 0, g: 0, b: 0, a: 255 };

fn on_edge(p: Position) -> bool {
    p.x < GRID_WIDTH
        && p.y < GRID_HEIGHT
        && (p.x == 0 || p.y == 0 || p.x == GRID_WIDTH - 1 || p.y == GRID_HEIGHT - 1)
}

fn one_step_apart(a: Position, b: Position) -> bool {
    let dx = a.x.abs_diff(b.x);
    let dy = a.y.abs_diff(b.y);
    (dx == 1 && dy == 0) || (dx == 0 && dy == 1)
}

#[test]
fn player_starts_in_the_centre() {
    let p = Player::new();
    assert_eq!(p.0.position, Position { x: 40, y: 30 });
    assert_eq!(p.0.colour, CYAN);
}

#[test]
fn baddie_starts_on_an_edge() {
    for _ in 0..500 {
        let b = Baddie::new();
        assert!(on_edge(b.0.position));
        assert_eq!(b.0.colour, RED);
    }
}

#[test]
fn baddie_at_a_given_cell() {
    let b = Baddie::at(Position { x: 3, y: 4 });
    assert_eq!(b.0.position, Position { x: 3, y: 4 });
    assert_eq!(b.0.colour, RED);
}

#[test]
fn new_game() {
    let g = MyGame::new();
    assert_eq!(g.ticks, 0);
    assert!(!g.quit);
    assert_eq!(g.direction, Direction::Right);
    assert_eq!(g.player.0.position, Position::new());
    assert!(g.baddies.is_empty());
    assert_eq!(g.background.len(), 0);
    assert_eq!(g.state, State::Running);
}

#[test]
fn speed_thresholds_belong_to_the_slower_pace() {
    assert_eq!(Speed::at(0), Speed::MegaSlow);
    assert_eq!(Speed::at(50), Speed::MegaSlow);
    assert_eq!(Speed::at(51), Speed::Slow);
    assert_eq!(Speed::at(1500), Speed::Slow);
    assert_eq!(Speed::at(1501), Speed::Fast);
    assert_eq!(Speed::at(3000), Speed::Fast);
    assert_eq!(Speed::at(3001), Speed::MegaFast);
    assert_eq!(Speed::at(u64::MAX), Speed::MegaFast);
}

#[test]
fn speed_intervals() {
    assert_eq!(Speed::MegaSlow.interval(), 8);
    assert_eq!(Speed::Slow.interval(), 4);
    assert_eq!(Speed::Fast.interval(), 2);
    assert_eq!(Speed::MegaFast.interval(), 1);
}

#[test]
fn should_move_on_multiples_of_the_interval() {
    let mut g = MyGame::new();
    g.ticks = 16;
    assert!(g.should_move(Speed::MegaSlow));
    assert!(g.should_move(Speed::Slow));
    g.ticks = 12;
    assert!(!g.should_move(Speed::MegaSlow));
    assert!(g.should_move(Speed::Slow));
    g.ticks = 7;
    assert!(!g.should_move(Speed::Fast));
    assert!(g.should_move(Speed::MegaFast));
}

#[test]
fn key_presses() {
    let keys = [
        (Key::W, Direction::Up),
        (Key::Up, Direction::Up),
        (Key::S, Direction::Down),
        (Key::Down, Direction::Down),
        (Key::A, Direction::Left),
        (Key::Left, Direction::Left),
        (Key::D, Direction::Right),
        (Key::Right, Direction::Right),
    ];
    for (key, direction) in keys {
        let mut g = MyGame::new();
        g.key_down_event(key);
        assert_eq!(g.direction, direction);
        assert!(!g.quit);
    }
    let mut g = MyGame::new();
    g.key_down_event(Key::Left);
    g.key_down_event(Key::Other);
    assert_eq!(g.direction, Direction::Left);
    assert!(!g.quit);
    g.key_down_event(Key::Q);
    assert_eq!(g.direction, Direction::Left);
    assert!(g.quit);
}

#[test]
fn last_direction_wins() {
    let mut g = MyGame::new();
    g.set_direction(Direction::Up);
    g.set_direction(Direction::Left);
    assert_eq!(g.direction, Direction::Left);
    for _ in 0..8 {
        g.update();
    }
    assert_eq!(g.player.0.position, Position { x: 39, y: 30 });
}

#[test]
fn move_square_moves_and_records() {
    let mut g = MyGame::new();
    g.move_square(Direction::Down);
    assert_eq!(g.player.0.position, Position { x: 40, y: 31 });
    assert_eq!(g.background.get(Position { x: 40, y: 31 }), Some(CYAN));
    g.move_square(Direction::Up);
    g.move_square(Direction::Down);
    assert_eq!(g.background.len(), 2);
    assert_eq!(g.background.get(Position { x: 40, y: 31 }).unwrap().a, 102);
    assert_eq!(g.background.get(Position { x: 40, y: 30 }), Some(CYAN));
    assert_eq!(g.ticks, 0);
}

#[test]
fn player_moves_once_in_the_first_eight_ticks() {
    let mut g = MyGame::new();
    let centre = Position::new();
    for t in 1..=7u64 {
        g.update();
        assert_eq!(g.ticks, t);
        assert_eq!(g.player.0.position, centre);
        assert_eq!(g.background.len(), 0);
    }
    g.update();
    assert_eq!(g.ticks, 8);
    assert_eq!(g.player.0.position, Position { x: centre.x + 1, y: centre.y });
    assert_eq!(g.background.len(), 1);
    assert_eq!(g.background.iterate(), vec![(Position { x: 41, y: 30 }, CYAN)]);
    assert_eq!(g.state, State::Running);
}

#[test]
fn player_pace_quickens() {
    let mut g = MyGame::new();
    let mut moves = Vec::new();
    let mut last = g.player.0.position;
    for _ in 0..64 {
        g.update();
        if g.player.0.position != last {
            moves.push(g.ticks);
            last = g.player.0.position;
        }
    }
    assert_eq!(moves, vec![8, 16, 24, 32, 40, 48, 52, 56, 60, 64]);
}

#[test]
fn first_baddie_joins_at_tick_one_hundred() {
    let mut g = MyGame::new();
    for _ in 0..99 {
        g.update();
        assert!(g.baddies.is_empty());
    }
    g.update();
    assert_eq!(g.ticks, 100);
    assert_eq!(g.baddies.len(), 1);
    assert!(on_edge(g.baddies[0].0.position));
    assert_eq!(g.baddies[0].0.colour, RED);
}

#[test]
fn baddies_only_grow_in_number() {
    let mut g = MyGame::new();
    for _ in 0..450 {
        g.update();
        assert_eq!(g.baddies.len() as u64, g.ticks / 100);
    }
}

#[test]
fn baddies_move_every_tick() {
    let mut g = MyGame::new();
    g.baddies.push(Baddie::at(Position { x: 10, y: 10 }));
    g.baddies.push(Baddie::at(Position { x: 70, y: 50 }));
    for _ in 0..7 {
        let before: Vec<Position> = g.baddies.iter().map(|b| b.0.position).collect();
        let player = g.player.0.position;
        g.update();
        assert_eq!(g.player.0.position, player);
        for (b, old) in g.baddies.iter().zip(before) {
            assert!(one_step_apart(b.0.position, old));
            let mut wrong = old;
            wrong.shunt(old.forbidden_direction(&player));
            assert_ne!(b.0.position, wrong);
        }
    }
}

#[test]
fn chase_with_moves_each_baddie_as_picked() {
    let mut g = MyGame::new();
    g.baddies.push(Baddie::at(Position { x: 45, y: 30 }));
    g.baddies.push(Baddie::at(Position { x: 35, y: 30 }));
    g.baddies.push(Baddie::at(Position { x: 40, y: 0 }));
    g.chase_with(&vec![2, 2, 0]);
    let cells: Vec<Position> = g.baddies.iter().map(|b| b.0.position).collect();
    assert_eq!(
        cells,
        vec![Position { x: 44, y: 30 }, Position { x: 36, y: 30 }, Position { x: 40, y: 60 }]
    );
    g.chase_with(&vec![0, 1, 1]);
    let cells: Vec<Position> = g.baddies.iter().map(|b| b.0.position).collect();
    assert_eq!(
        cells,
        vec![Position { x: 44, y: 29 }, Position { x: 36, y: 31 }, Position { x: 40, y: 0 }]
    );
    assert!(g.baddies.iter().all(|b| b.0.colour == RED));
    assert_eq!(g.ticks, 0);
    assert_eq!(g.player.0.position, Position::new());
    assert_eq!(g.state, State::Running);
}

#[test]
fn draw_picks_gives_one_valid_pick_each() {
    assert!(draw_picks(0).is_empty());
    let picks = draw_picks(3000);
    assert_eq!(picks.len(), 3000);
    for k in 0..3 {
        assert!(picks.contains(&k));
    }
    assert!(picks.iter().all(|k| *k < 3));
}

#[test]
fn advance_moves_the_player_on_its_pace() {
    let mut g = MyGame::new();
    g.set_direction(Direction::Up);
    for _ in 0..7 {
        g.advance(&vec![], None);
    }
    assert_eq!(g.player.0.position, Position { x: 40, y: 30 });
    g.advance(&vec![], None);
    assert_eq!(g.ticks, 8);
    assert_eq!(g.player.0.position, Position { x: 40, y: 29 });
    assert_eq!(g.background.iterate(), vec![(Position { x: 40, y: 29 }, CYAN)]);
}

#[test]
fn advance_chases_the_player_where_it_now_stands() {
    let mut g = MyGame::new();
    g.ticks = 7;
    // The player steps right onto column 41, so a pursuer on column 41 is no
    // longer to its right and may itself step right.
    g.baddies.push(Baddie::at(Position { x: 41, y: 10 }));
    g.advance(&vec![2], None);
    assert_eq!(g.player.0.position, Position { x: 41, y: 30 });
    assert_eq!(g.baddies[0].0.position, Position { x: 42, y: 10 });
}

#[test]
fn advance_admits_a_newcomer_only_when_one_is_due() {
    let mut g = MyGame::new();
    g.advance(&vec![], Some(Position { x: 0, y: 9 }));
    assert!(g.baddies.is_empty());
    g.ticks = 99;
    g.advance(&vec![], None);
    assert!(g.baddies.is_empty());
    g.ticks = 199;
    g.advance(&vec![], Some(Position { x: 0, y: 9 }));
    assert_eq!(g.ticks, 200);
    assert_eq!(g.baddies.len(), 1);
    assert_eq!(g.baddies[0], Baddie::at(Position { x: 0, y: 9 }));
    g.ticks = 299;
    g.advance(&vec![1], Some(Position { x: 79, y: 3 }));
    assert_eq!(g.baddies.len(), 2);
    assert_eq!(g.baddies[0].0.position, Position { x: 0, y: 10 });
    assert_eq!(g.baddies[1].0.position, Position { x: 79, y: 3 });
}

#[test]
fn advance_ends_the_game_when_a_baddie_steps_onto_the_player() {
    let mut g = MyGame::new();
    g.baddies.push(Baddie::at(Position { x: 41, y: 30 }));
    g.advance(&vec![2], None);
    assert_eq!(g.baddies[0].0.position, Position { x: 40, y: 30 });
    assert_eq!(g.state, State::Terminated(Ending::Collision));
}

#[test]
fn advance_ends_the_game_when_baddie_and_player_step_together() {
    let mut g = MyGame::new();
    g.ticks = 7;
    g.baddies.push(Baddie::at(g.player.0.position));
    g.advance(&vec![2], None);
    assert_eq!(g.player.0.position, Position { x: 41, y: 30 });
    assert_eq!(g.baddies[0].0.position, Position { x: 41, y: 30 });
    assert_eq!(g.state, State::Terminated(Ending::Collision));
}

#[test]
fn advance_ends_the_game_when_a_newcomer_lands_on_the_player() {
    let mut g = MyGame::new();
    g.ticks = 99;
    g.player.0.position = Position { x: 0, y: 5 };
    g.set_direction(Direction::Down);
    g.advance(&vec![], Some(Position { x: 0, y: 6 }));
    assert_eq!(g.player.0.position, Position { x: 0, y: 6 });
    assert_eq!(g.state, State::Terminated(Ending::Collision));
}

#[test]
fn advance_lets_a_baddie_step_off_the_players_cell() {
    for pick in 0..3 {
        let mut g = MyGame::new();
        g.baddies.push(Baddie::at(g.player.0.position));
        g.advance(&vec![pick], None);
        assert_eq!(g.state, State::Running);
    }
}

#[test]
fn advance_prefers_quit_to_collision() {
    let mut g = MyGame::new();
    g.baddies.push(Baddie::at(Position { x: 41, y: 30 }));
    g.request_quit();
    g.advance(&vec![2], None);
    assert!(g.caught());
    assert_eq!(g.state, State::Terminated(Ending::Quit));
}

#[test]
fn caught_when_a_baddie_shares_the_players_cell() {
    let mut g = MyGame::new();
    assert!(!g.caught());
    g.baddies.push(Baddie::at(Position { x: 1, y: 1 }));
    assert!(!g.caught());
    g.baddies.push(Baddie::at(Position::new()));
    assert!(g.caught());
}

#[test]
fn caught_across_the_wrap() {
    let mut g = MyGame::new();
    g.player.0.position = Position { x: 80, y: 60 };
    g.baddies.push(Baddie::at(Position { x: 0, y: 0 }));
    assert!(g.caught());
}

#[test]
fn collision_ends_the_game() {
    let mut g = MyGame::new();
    g.baddies.push(Baddie::at(g.player.0.position));
    g.settle();
    assert_eq!(g.state, State::Terminated(Ending::Collision));
}

#[test]
fn baddie_on_the_players_cell_steps_off_before_the_check() {
    for _ in 0..100 {
        let mut g = MyGame::new();
        let centre = g.player.0.position;
        g.baddies.push(Baddie::at(centre));
        g.update();
        let b = g.baddies[0].0.position;
        assert_eq!(g.player.0.position, centre);
        assert!(
            b == Position { x: 40, y: 29 }
                || b == Position { x: 40, y: 31 }
                || b == Position { x: 41, y: 30 }
        );
        assert_eq!(g.state, State::Running);
    }
}

#[test]
fn update_ends_the_game_when_a_baddie_steps_onto_the_player() {
    let mut collisions = 0;
    for _ in 0..300 {
        let mut g = MyGame::new();
        g.baddies.push(Baddie::at(Position { x: 41, y: 30 }));
        g.update();
        if g.baddies[0].0.position == g.player.0.position {
            assert_eq!(g.baddies[0].0.position, Position { x: 40, y: 30 });
            assert_eq!(g.state, State::Terminated(Ending::Collision));
            collisions += 1;
        } else {
            assert_eq!(g.state, State::Running);
        }
    }
    assert!(collisions > 0);
}

#[test]
fn quit_ends_the_game_at_the_next_update() {
    let mut g = MyGame::new();
    g.request_quit();
    assert_eq!(g.state, State::Running);
    g.update();
    assert_eq!(g.state, State::Terminated(Ending::Quit));
    assert_eq!(g.ticks, 1);
}

#[test]
fn quit_wins_over_a_collision() {
    let mut g = MyGame::new();
    g.baddies.push(Baddie::at(g.player.0.position));
    g.request_quit();
    g.settle();
    assert_eq!(g.state, State::Terminated(Ending::Quit));
}

#[test]
fn an_ended_game_stays_ended() {
    let mut g = MyGame::new();
    g.baddies.push(Baddie::at(g.player.0.position));
    g.settle();
    g.baddies.clear();
    g.settle();
    assert_eq!(g.state, State::Terminated(Ending::Collision));
    g.update();
    assert_eq!(g.state, State::Terminated(Ending::Collision));
}

#[test]
fn settle_leaves_a_quiet_game_running() {
    let mut g = MyGame::new();
    g.baddies.push(Baddie::at(Position { x: 0, y: 0 }));
    g.settle();
    assert_eq!(g.state, State::Running);
}

#[test]
fn scene_lists_player_then_baddies_then_trail() {
    let mut g = MyGame::new();
    g.baddies.push(Baddie::at(Position { x: 1, y: 2 }));
    g.baddies.push(Baddie::at(Position { x: 3, y: 4 }));
    g.move_square(Direction::Right);
    g.move_square(Direction::Right);
    let cells = g.scene();
    assert_eq!(cells.len(), 5);
    assert_eq!(cells[0], (Position { x: 42, y: 30 }, BLACK));
    assert_eq!(cells[1], (Position { x: 1, y: 2 }, RED));
    assert_eq!(cells[2], (Position { x: 3, y: 4 }, RED));
    let mut trail = cells[3..].to_vec();
    trail.sort_by_key(|(p, _)| (p.x, p.y));
    assert_eq!(trail, vec![(Position { x: 41, y: 30 }, CYAN), (Position { x: 42, y: 30 }, CYAN)]);
}

#[test]
fn long_run_keeps_everything_within_the_grid() {
    let mut g = MyGame::new();
    g.set_direction(Direction::Up);
    let mut cells = 0;
    for _ in 0..3500 {
        g.update();
        let p = g.player.0.position;
        assert!(p.x <= GRID_WIDTH && p.y <= GRID_HEIGHT);
        for b in g.baddies.iter() {
            assert!(b.0.position.x <= GRID_WIDTH && b.0.position.y <= GRID_HEIGHT);
        }
        assert!(g.background.len() >= cells);
        cells = g.background.len();
    }
    assert_eq!(g.ticks, 3500);
    assert_eq!(g.baddies.len(), 35);
    for (_, colour) in g.background.iterate() {
        assert!(colour.a >= 51);
    }
}

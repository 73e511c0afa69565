use snake_game::{Direction, GameState, Position, GRID_HEIGHT, GRID_WIDTH};

#[test]
fn test_complete_game_session() {
    let mut game = GameState::new();
    let mut moves = 0;
    const MAX_MOVES: usize = 100;

    while !game.game_over && moves < MAX_MOVES {
        match moves % 10 {
            0 => game.handle_input(Direction::Up),
            3 => game.handle_input(Direction::Right),
            6 => game.handle_input(Direction::Down),
            _ => {}
        }

        game.move_snake();
        moves += 1;

        assert!(
            game.snake.len() >= 3,
            "Snake should never be shorter than 3 segments"
        );

        for segment in &game.snake {
            assert!(
                segment.is_valid(),
                "All snake segments should be valid positions"
            );
        }

        for i in 1..game.snake.len() {
            let prev = game.snake[i - 1];
            let curr = game.snake[i];
            let x_diff = (prev.x - curr.x).abs();
            let y_diff = (prev.y - curr.y).abs();
            assert!(x_diff + y_diff == 1, "Snake segments should be adjacent");
        }
    }

    assert!(game.game_over || moves >= MAX_MOVES);
}

#[test]
fn test_multiple_food_consumption() {
    let mut game = GameState::new();
    let initial_speed = game.game_speed;
    let mut food_eaten = 0;

    for _i in 0..5 {
        let head = game.snake[0];
        let food_pos = head.move_in_direction(game.direction);
        game.food = food_pos;

        let initial_length = game.snake.len();
        let initial_score = game.score;

        game.move_snake();

        assert_eq!(game.snake.len(), initial_length + 1);
        assert_eq!(game.score, initial_score + 10);
        food_eaten += 1;

        assert!(game.game_speed < initial_speed);

        assert!(!game.snake.contains(&game.food));
    }

    assert_eq!(food_eaten, 5);
}

#[test]
fn test_boundary_movement() {
    let _game = GameState::new();

    let test_cases = [
        (Position::new(0, GRID_HEIGHT / 2), Direction::Left),
        (
            Position::new(GRID_WIDTH - 1, GRID_HEIGHT / 2),
            Direction::Right,
        ),
        (Position::new(GRID_WIDTH / 2, 0), Direction::Up),
        (
            Position::new(GRID_WIDTH / 2, GRID_HEIGHT - 1),
            Direction::Down,
        ),
    ];

    for (pos, direction) in test_cases {
        let snake = vec![
            pos,
            Position::new(pos.x, pos.y + 1),
            Position::new(pos.x, pos.y + 2),
        ];
        let mut test_game = GameState {
            snake,
            direction,
            next_direction: direction,
            food: Position::new(5, 5),
            score: 0,
            high_score: 0,
            game_over: false,
            game_speed: 200_000,
            last_update: 0,
        };

        test_game.move_snake();
        assert!(
            test_game.game_over,
            "Moving out of bounds should end the game"
        );
    }
}

#[test]
fn test_input_handling_during_gameplay() {
    let mut game = GameState::new();

    game.handle_input(Direction::Up);
    assert_eq!(game.next_direction, Direction::Up);

    game.handle_input(Direction::Left);
    assert_eq!(game.next_direction, Direction::Up);

    game.handle_input(Direction::Right);
    assert_eq!(game.next_direction, Direction::Right);

    let initial_head = game.snake[0];
    game.move_snake();
    let new_head = game.snake[0];

    assert_eq!(new_head.x, initial_head.x + 1);
    assert_eq!(new_head.y, initial_head.y);
}

#[test]
fn test_game_restart() {
    let mut game = GameState::new();

    for _ in 0..5 {
        game.move_snake();
    }

    game.game_over = true;

    let restarted_game = GameState::new();

    assert_eq!(restarted_game.snake.len(), 3);
    assert_eq!(restarted_game.score, 0);
    assert!(!restarted_game.game_over);
    assert_eq!(restarted_game.direction, Direction::Right);

    let expected_head = Position::new(GRID_WIDTH / 2, GRID_HEIGHT / 2);
    assert_eq!(restarted_game.snake[0], expected_head);
}

#[test]
fn test_food_generation_edge_cases() {
    let mut snake = Vec::new();
    for x in 0..GRID_WIDTH {
        for y in 0..GRID_HEIGHT {
            snake.push(Position::new(x, y));
        }
    }

    snake.pop();

    let food = GameState::generate_food_position(&snake);
    assert!(food.is_valid());
    assert!(!snake.contains(&food));
}

#[test]
fn test_game_speed_progression() {
    let mut game = GameState::new();
    let initial_speed = game.game_speed;
    let mut previous_speed = initial_speed;

    for _ in 0..5 {
        let head = game.snake[0];
        let food_pos = head.move_in_direction(game.direction);
        game.food = food_pos;

        let speed_before = game.game_speed;
        game.move_snake();

        assert!(game.game_speed <= speed_before);
        assert!(game.game_speed <= previous_speed);

        previous_speed = game.game_speed;

        // the floor of one tenth of a second, in microseconds
        assert!(game.game_speed >= 100_000);
    }
}

#[test]
fn test_self_collision() {
    let snake = vec![
        Position::new(5, 5),
        Position::new(5, 6),
        Position::new(4, 6),
        Position::new(3, 6),
        Position::new(3, 5),
        Position::new(4, 5),
    ];

    let mut game = GameState {
        snake,
        direction: Direction::Down,
        next_direction: Direction::Down,
        food: Position::new(0, 0),
        score: 0,
        high_score: 0,
        game_over: false,
        game_speed: 200_000,
        last_update: 0,
    };

    game.move_snake();
    assert!(game.game_over);
}

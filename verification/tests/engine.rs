use snake_engine::model::{
    direction_to, Battlesnake, Board, Coord, Direction, EngineError, Game, SafetyMap,
};
use snake_engine::pathfinder::{
    distance, find_routes, first_step, nearest, recommend, recommend_from, same_cell, step,
    successors, Route,
};
use snake_engine::safety::{check_snake, mark_body, mark_walls, reverse_of, safety_filter};
use snake_engine::selector::{decide_move, safe_directions, select_move};
use snake_engine::service::{end, get_move, info, start};

fn c(x: i32, y: i32) -> Coord {
    Coord { x, y }
}

fn snake(cells: &[(i32, i32)]) -> Battlesnake {
    Battlesnake { body: cells.iter().map(|&(x, y)| c(x, y)).collect() }
}

fn board(width: i32, height: i32, food: &[(i32, i32)], snakes: Vec<Battlesnake>) -> Board {
    Board { width, height, food: food.iter().map(|&(x, y)| c(x, y)).collect(), snakes }
}

fn game() -> Game {
    Game { id: String::from("g"), timeout: 500 }
}

fn map(up: bool, down: bool, left: bool, right: bool) -> SafetyMap {
    SafetyMap { up, down, left, right }
}

#[test]
fn start_of_game_only_walls_apply() {
    let you = snake(&[(0, 0), (0, 0), (0, 0)]);
    let b = board(10, 10, &[], vec![you.clone()]);
    assert_eq!(safety_filter(&you, &b), map(true, false, false, true));
}

#[test]
fn neck_direction_is_never_safe() {
    let b = board(11, 11, &[], vec![]);
    assert!(!safety_filter(&snake(&[(5, 5), (4, 5)]), &b).left);
    assert!(!safety_filter(&snake(&[(5, 5), (6, 5)]), &b).right);
    assert!(!safety_filter(&snake(&[(5, 5), (5, 4)]), &b).down);
    assert!(!safety_filter(&snake(&[(5, 5), (5, 6)]), &b).up);
    assert_eq!(safety_filter(&snake(&[(5, 5), (5, 4)]), &b), map(true, false, true, true));
}

#[test]
fn reverse_rule_names_one_direction() {
    assert_eq!(reverse_of(&c(5, 5), &c(4, 5)), Some(Direction::Left));
    assert_eq!(reverse_of(&c(5, 5), &c(6, 5)), Some(Direction::Right));
    assert_eq!(reverse_of(&c(5, 5), &c(5, 4)), Some(Direction::Down));
    assert_eq!(reverse_of(&c(5, 5), &c(5, 6)), Some(Direction::Up));
    assert_eq!(reverse_of(&c(5, 5), &c(5, 5)), None);
    assert_eq!(reverse_of(&c(5, 5), &c(3, 9)), Some(Direction::Left));
}

#[test]
fn walls_on_a_square_board() {
    let b = board(10, 10, &[], vec![]);
    assert_eq!(safety_filter(&snake(&[(9, 9), (9, 9)]), &b), map(false, true, true, false));
    assert_eq!(safety_filter(&snake(&[(0, 9), (0, 9)]), &b), map(false, true, false, true));
    assert_eq!(safety_filter(&snake(&[(9, 0), (9, 0)]), &b), map(true, false, true, false));
    assert_eq!(safety_filter(&snake(&[(4, 4), (4, 4)]), &b), map(true, true, true, true));
}

#[test]
fn walls_on_a_board_that_is_not_square() {
    let tall = board(5, 10, &[], vec![]);
    assert_eq!(safety_filter(&snake(&[(4, 4), (4, 4)]), &tall), map(true, true, true, false));
    assert_eq!(safety_filter(&snake(&[(4, 9), (4, 9)]), &tall), map(false, true, true, false));
    let wide = board(10, 5, &[], vec![]);
    assert_eq!(safety_filter(&snake(&[(4, 4), (4, 4)]), &wide), map(false, true, true, true));
    assert_eq!(safety_filter(&snake(&[(9, 2), (9, 2)]), &wide), map(true, true, true, false));
}

#[test]
fn wall_marks_only_clear() {
    let mut m = map(true, false, true, true);
    mark_walls(&c(0, 0), 3, 7, &mut m);
    assert_eq!(m, map(true, false, false, true));
    let mut m = map(true, true, true, true);
    mark_walls(&c(2, 6), 3, 7, &mut m);
    assert_eq!(m, map(false, true, true, false));
    let mut m = map(false, false, false, false);
    mark_walls(&c(1, 1), 3, 7, &mut m);
    assert_eq!(m, map(false, false, false, false));
}

#[test]
fn own_body_blocks() {
    let you = snake(&[(5, 5), (5, 4), (6, 4), (6, 5), (6, 6), (5, 6)]);
    let b = board(11, 11, &[], vec![you.clone()]);
    assert_eq!(safety_filter(&you, &b), map(false, false, true, false));
}

#[test]
fn opponent_head_blocks() {
    let you = snake(&[(5, 5), (5, 4)]);
    let opp = snake(&[(4, 5), (3, 5), (2, 5)]);
    let b = board(11, 11, &[], vec![you.clone(), opp]);
    assert_eq!(safety_filter(&you, &b), map(true, false, false, true));
}

#[test]
fn check_snake_marks_neighbouring_segments() {
    let you = snake(&[(5, 5), (5, 4)]);
    let opp = snake(&[(5, 6), (6, 6), (6, 5), (7, 5)]);
    let mut m = SafetyMap::all_safe();
    check_snake(&you, &opp, &mut m);
    assert_eq!(m, map(false, true, true, false));
    let far = snake(&[(1, 1), (1, 2), (5, 5)]);
    let mut m = SafetyMap::all_safe();
    check_snake(&you, &far, &mut m);
    assert_eq!(m, map(true, true, true, true));
}

#[test]
fn mark_body_at_the_edge_of_the_numbers() {
    let mut m = SafetyMap::all_safe();
    mark_body(&c(i32::MIN, i32::MAX), &vec![c(i32::MIN + 1, i32::MAX), c(i32::MIN, i32::MAX - 1)], &mut m);
    assert_eq!(m, map(true, false, true, false));
}

#[test]
fn filter_gives_the_same_map_twice() {
    let you = snake(&[(3, 3), (3, 2), (2, 2)]);
    let opp = snake(&[(4, 3), (4, 4)]);
    let b = board(7, 7, &[(1, 1)], vec![you.clone(), opp]);
    let first = safety_filter(&you, &b);
    let second = safety_filter(&you, &b);
    assert_eq!(first, second);
    assert_eq!(first, map(true, false, true, false));
}

#[test]
fn safety_map_methods() {
    let mut m = SafetyMap::all_safe();
    assert!(m.is_safe(Direction::Up) && m.is_safe(Direction::Down));
    assert!(m.is_safe(Direction::Left) && m.is_safe(Direction::Right));
    m.forbid(Direction::Left);
    assert_eq!(m, map(true, true, false, true));
    m.forbid(Direction::Left);
    assert_eq!(m, map(true, true, false, true));
    m.forbid(Direction::Up);
    assert!(!m.is_safe(Direction::Up));
    assert!(m.is_safe(Direction::Right));
}

#[test]
fn direction_between_cells() {
    assert_eq!(direction_to(&c(5, 5), &c(5, 6)), Some(Direction::Up));
    assert_eq!(direction_to(&c(5, 5), &c(5, 4)), Some(Direction::Down));
    assert_eq!(direction_to(&c(5, 5), &c(4, 5)), Some(Direction::Left));
    assert_eq!(direction_to(&c(5, 5), &c(6, 5)), Some(Direction::Right));
    assert_eq!(direction_to(&c(5, 5), &c(5, 5)), None);
    assert_eq!(direction_to(&c(5, 5), &c(6, 6)), None);
    assert_eq!(direction_to(&c(5, 5), &c(7, 5)), None);
    assert_eq!(direction_to(&c(i32::MAX, 0), &c(i32::MIN, 0)), None);
}

#[test]
fn direction_names() {
    assert_eq!(Direction::Up.name(), "up");
    assert_eq!(Direction::Down.name(), "down");
    assert_eq!(Direction::Left.name(), "left");
    assert_eq!(Direction::Right.name(), "right");
}

#[test]
fn manhattan_distance() {
    assert_eq!(distance(&c(5, 5), &c(5, 8)), 3);
    assert_eq!(distance(&c(1, 2), &c(4, 0)), 5);
    assert_eq!(distance(&c(4, 0), &c(1, 2)), 5);
    assert_eq!(distance(&c(7, 7), &c(7, 7)), 0);
    assert_eq!(distance(&c(i32::MIN, i32::MIN), &c(i32::MAX, i32::MAX)), 8589934590);
}

#[test]
fn goal_test() {
    assert!(same_cell(&c(2, 3), &c(2, 3)));
    assert!(!same_cell(&c(2, 3), &c(3, 2)));
    assert!(!same_cell(&c(2, 3), &c(2, 4)));
}

#[test]
fn steps_and_successors() {
    assert_eq!(step(&c(1, 1), Direction::Up), Some(c(1, 2)));
    assert_eq!(step(&c(1, 1), Direction::Down), Some(c(1, 0)));
    assert_eq!(step(&c(1, 1), Direction::Left), Some(c(0, 1)));
    assert_eq!(step(&c(1, 1), Direction::Right), Some(c(2, 1)));
    assert_eq!(step(&c(i32::MAX, 0), Direction::Right), None);
    assert_eq!(step(&c(0, i32::MIN), Direction::Down), None);
    assert_eq!(successors(&c(1, 1)), vec![(c(2, 1), 1), (c(0, 1), 1), (c(1, 2), 1), (c(1, 0), 1)]);
    assert_eq!(successors(&c(i32::MAX, i32::MIN)), vec![(c(i32::MAX - 1, i32::MIN), 1), (c(i32::MAX, i32::MIN + 1), 1)]);
}

#[test]
fn food_straight_up() {
    let routes = find_routes(&c(5, 5), &vec![c(5, 8)]).unwrap();
    assert_eq!(routes.len(), 1);
    assert_eq!(routes[0].cost, 3);
    assert_eq!(routes[0].nodes, vec![c(5, 5), c(5, 6), c(5, 7), c(5, 8)]);
    assert_eq!(recommend(&c(5, 5), &vec![c(5, 8)]), Ok(Some(Direction::Up)));
    let you = snake(&[(5, 5), (5, 4)]);
    let b = board(10, 10, &[(5, 8)], vec![you.clone()]);
    assert_eq!(decide_move(&you, &b), Ok(Direction::Up));
}

#[test]
fn routes_are_walks_of_manhattan_length() {
    let head = c(2, 9);
    let food = vec![c(7, 3), c(0, 0), c(2, 10)];
    let routes = find_routes(&head, &food).unwrap();
    assert_eq!(routes.len(), 3);
    for (route, target) in routes.iter().zip(food.iter()) {
        assert_eq!(route.cost, distance(&head, target));
        assert_eq!(route.nodes.len() as u64, route.cost + 1);
        assert_eq!(route.nodes[0], head);
        assert_eq!(route.nodes[route.nodes.len() - 1], *target);
        for pair in route.nodes.windows(2) {
            assert_eq!(distance(&pair[0], &pair[1]), 1);
        }
    }
}

#[test]
fn nearest_food_wins() {
    let head = c(5, 5);
    let food = vec![c(0, 0), c(7, 5), c(5, 9)];
    let routes = find_routes(&head, &food).unwrap();
    let k = nearest(&routes).unwrap();
    assert_eq!(k, 1);
    for r in &routes {
        assert!(routes[k].cost <= r.cost);
    }
    assert_eq!(recommend(&head, &food), Ok(Some(Direction::Right)));
}

#[test]
fn first_of_equal_costs_wins() {
    let routes = vec![
        Route { nodes: vec![c(5, 5), c(5, 6), c(5, 7)], cost: 2 },
        Route { nodes: vec![c(5, 5), c(4, 5)], cost: 1 },
        Route { nodes: vec![c(5, 5), c(6, 5)], cost: 1 },
    ];
    assert_eq!(nearest(&routes), Some(1));
    assert_eq!(recommend_from(&routes), Ok(Some(Direction::Left)));
    assert_eq!(nearest(&Vec::new()), None);
    assert_eq!(recommend_from(&Vec::new()), Ok(None));
    let same = vec![
        Route { nodes: vec![c(0, 0), c(0, 1)], cost: u64::MAX },
        Route { nodes: vec![c(0, 0), c(1, 0)], cost: u64::MAX },
    ];
    assert_eq!(nearest(&same), Some(0));
}

#[test]
fn first_step_of_a_route() {
    assert_eq!(first_step(&Route { nodes: vec![c(1, 1), c(1, 2)], cost: 1 }), Ok(Some(Direction::Up)));
    assert_eq!(first_step(&Route { nodes: vec![c(1, 1), c(1, 0)], cost: 1 }), Ok(Some(Direction::Down)));
    assert_eq!(first_step(&Route { nodes: vec![c(1, 1), c(3, 1)], cost: 1 }), Ok(None));
    assert_eq!(first_step(&Route { nodes: vec![c(1, 1)], cost: 0 }), Err(EngineError::PathfindingInternalError));
    assert_eq!(first_step(&Route { nodes: vec![], cost: 0 }), Err(EngineError::PathfindingInternalError));
}

#[test]
fn food_under_the_head_is_an_error() {
    assert_eq!(recommend(&c(3, 3), &vec![c(3, 3)]), Err(EngineError::PathfindingInternalError));
    assert_eq!(recommend(&c(3, 3), &vec![c(3, 3), c(9, 9)]), Err(EngineError::PathfindingInternalError));
    assert_eq!(recommend(&c(3, 3), &vec![c(9, 9), c(3, 3)]), Err(EngineError::PathfindingInternalError));
}

#[test]
fn pathfinder_repeats_itself() {
    let head = c(4, 4);
    let food = vec![c(6, 6), c(2, 2), c(4, 8)];
    let first = recommend(&head, &food);
    let second = recommend(&head, &food);
    assert_eq!(first, second);
    assert!(matches!(first, Ok(Some(_))));
    let a = find_routes(&head, &food).unwrap();
    let b = find_routes(&head, &food).unwrap();
    for (x, y) in a.iter().zip(b.iter()) {
        assert_eq!(x.nodes, y.nodes);
        assert_eq!(x.cost, y.cost);
    }
}

#[test]
fn no_food_no_recommendation() {
    assert_eq!(recommend(&c(5, 5), &Vec::new()), Ok(None));
    assert_eq!(find_routes(&c(5, 5), &Vec::new()).unwrap().len(), 0);
    let you = snake(&[(5, 5), (5, 4)]);
    let b = board(10, 10, &[], vec![you.clone()]);
    let safe = safety_filter(&you, &b);
    for _ in 0..40 {
        let d = decide_move(&you, &b).unwrap();
        assert!(safe.is_safe(d));
        assert_ne!(d, Direction::Down);
    }
}

#[test]
fn one_open_side_is_taken() {
    let you = snake(&[(5, 5), (5, 4)]);
    let opp = snake(&[(4, 5), (4, 6), (5, 6), (6, 6), (7, 6)]);
    let other = snake(&[(5, 3), (5, 4)]);
    let b = board(11, 11, &[(0, 5)], vec![you.clone(), opp, other]);
    assert_eq!(safety_filter(&you, &b), map(false, false, false, true));
    assert_eq!(recommend(&c(5, 5), &b.food), Ok(Some(Direction::Left)));
    assert_eq!(decide_move(&you, &b), Ok(Direction::Right));
    assert_eq!(get_move(&game(), &3, &b, &you), Ok(Direction::Right));
}

#[test]
fn boxed_in_has_no_safe_move() {
    let you = snake(&[(0, 0), (0, 1)]);
    let opp = snake(&[(1, 0), (1, 1)]);
    let b = board(11, 11, &[], vec![you.clone(), opp]);
    assert_eq!(safety_filter(&you, &b), map(false, false, false, false));
    assert_eq!(decide_move(&you, &b), Err(EngineError::NoSafeMove));
    let fed = board(11, 11, &[(4, 0)], b.snakes.clone());
    assert_eq!(decide_move(&you, &fed), Err(EngineError::NoSafeMove));
    assert_eq!(get_move(&game(), &0, &fed, &you), Err(EngineError::NoSafeMove));
}

#[test]
fn search_error_comes_before_the_selection() {
    let you = snake(&[(0, 0), (0, 1)]);
    let opp = snake(&[(1, 0), (1, 1)]);
    let b = board(11, 11, &[(0, 0)], vec![you.clone(), opp]);
    assert_eq!(decide_move(&you, &b), Err(EngineError::PathfindingInternalError));
}

#[test]
fn selector_cases() {
    let open = map(true, false, true, false);
    assert_eq!(select_move(&open, Some(Direction::Left), Some(Direction::Up)), Ok(Direction::Left));
    assert_eq!(select_move(&open, Some(Direction::Down), Some(Direction::Left)), Ok(Direction::Left));
    assert_eq!(select_move(&open, None, Some(Direction::Up)), Ok(Direction::Up));
    assert_eq!(select_move(&open, None, Some(Direction::Right)), Ok(Direction::Up));
    assert_eq!(select_move(&open, Some(Direction::Right), None), Ok(Direction::Up));
    let shut = map(false, false, false, false);
    assert_eq!(select_move(&shut, Some(Direction::Up), Some(Direction::Up)), Err(EngineError::NoSafeMove));
    assert_eq!(select_move(&shut, None, None), Err(EngineError::NoSafeMove));
}

#[test]
fn safe_directions_in_order() {
    assert_eq!(
        safe_directions(&SafetyMap::all_safe()),
        vec![Direction::Up, Direction::Down, Direction::Left, Direction::Right]
    );
    assert_eq!(safe_directions(&map(false, true, false, true)), vec![Direction::Down, Direction::Right]);
    assert_eq!(safe_directions(&map(false, false, false, false)), Vec::new());
}

#[test]
fn start_and_end_change_nothing() {
    let you = snake(&[(1, 1), (1, 0)]);
    let b = board(3, 3, &[(2, 2)], vec![you.clone()]);
    start(&game(), &0, &b, &you);
    end(&game(), &12, &b, &you);
    assert_eq!(you.body, vec![c(1, 1), c(1, 0)]);
    assert_eq!(b.food, vec![c(2, 2)]);
}

#[test]
fn appearance() {
    let a = info();
    assert_eq!(a.apiversion, "1");
    assert_eq!(a.author, "");
    assert_eq!(a.color, "#ffd700");
    assert_eq!(a.head, "all-seeing");
    assert_eq!(a.tail, "cosmic-horror");
}

use fava_core::ranking::ScoreBoard;

fn names(v: &[&str]) -> Vec<String> {
    v.iter().map(|s| s.to_string()).collect()
}

#[test]
fn board_get_defaults_to_zero() {
    let mut board = ScoreBoard::new();
    assert_eq!(board.get("nonexistent"), 0);
    board.set_score("item1", 1500);
    assert_eq!(board.get("item1"), 1500);
    board.set_score("item1", 1600);
    assert_eq!(board.get("item1"), 1600);
}

#[test]
fn board_sorts_liked_items_by_score() {
    let mut board = ScoreBoard::new();
    board.set_score("apple", 20);
    board.set_score("banana", 30);
    board.set_score("cherry", 10);
    assert_eq!(board.sort(), names(&["banana", "apple", "cherry"]));
    assert_eq!(
        board.sort_with_scores(),
        vec![("banana".to_string(), 30), ("apple".to_string(), 20), ("cherry".to_string(), 10)]
    );
}

#[test]
fn board_with_list_ranks_unliked_last_in_list_order() {
    let mut board = ScoreBoard::new_with_list(names(&["apple", "banana", "cherry", "date"]));
    board.set_score("cherry", 5);
    board.set_score("other", 100);
    assert_eq!(board.sort(), names(&["cherry", "apple", "banana", "date"]));
}

#[test]
fn board_ties_keep_candidate_order() {
    let mut board = ScoreBoard::new_with_list(names(&["1", "2", "3", "4"]));
    board.set_score("3", 7);
    board.set_score("1", 7);
    board.set_score("4", 9);
    assert_eq!(board.sort(), names(&["4", "1", "3", "2"]));
    let mut board = ScoreBoard::new();
    board.set_score("b", 1);
    board.set_score("a", 1);
    assert_eq!(board.sort(), names(&["b", "a"]));
}

#[test]
fn board_negative_scores_below_unliked() {
    let mut board = ScoreBoard::new_with_list(names(&["x", "y"]));
    board.set_score("y", -3);
    assert_eq!(board.sort_with_scores(), vec![("x".to_string(), 0), ("y".to_string(), -3)]);
}

#[test]
fn board_sort_twice_is_identical() {
    let mut board = ScoreBoard::new_with_list(names(&["a", "b", "c"]));
    board.set_score("b", 4);
    board.set_score("c", 4);
    let first = board.sort();
    let second = board.sort();
    assert_eq!(first, second);
    assert_eq!(first, names(&["b", "c", "a"]));
}

#[test]
fn board_empty() {
    let board = ScoreBoard::new();
    assert!(board.sort().is_empty());
    assert!(board.sort_with_scores().is_empty());
}

use chess_actix::scoring::{epd_eval_outcome, epd_score, Constraint};

#[test]
fn test_epd_eval_outcome_and_score() {
    let ams = vec!["e2e4".to_string(), "d2d4".to_string()];
    let bms = vec!["g1f3".to_string()];
    let eval = epd_eval_outcome("pos 1".to_string(), ams, bms, Some("d2d4".to_string()), 1500);
    let am = eval.am.as_ref().unwrap();
    assert_eq!(am.mv, "e2e4 d2d4");
    assert!(am.is_played);
    let bm = eval.bm.as_ref().unwrap();
    assert_eq!(bm.mv, "g1f3");
    assert!(!bm.is_played);
    let constraint = Constraint::new(2);
    let score = epd_score(&eval, constraint.max_time_sec());
    assert_eq!((score.am_count, score.am_ok, score.bm_count, score.bm_ok, score.time_bonus), (1, 0, 1, 0, 1));
    assert_eq!(score.best_move_opt, Some("d2d4".to_string()));
    let empty = epd_eval_outcome("pos 2".to_string(), vec![], vec![], None, 5000);
    assert!(empty.am.is_none() && empty.bm.is_none());
    let score = epd_score(&empty, 2);
    assert_eq!((score.am_count, score.bm_count, score.time_bonus), (0, 0, 0));
}

use sway_tools::error::PipelineError;
use sway_tools::selector::{select, select_at};

fn pool(names: &[&str]) -> Vec<String> {
    names.iter().map(|s| s.to_string()).collect()
}

#[test]
fn select_on_an_empty_pool_fails() {
    assert_eq!(select(&pool(&[])), Err(PipelineError::EmptyPool));
    assert_eq!(select_at(&pool(&[]), 0), Err(PipelineError::EmptyPool));
    assert_eq!(select_at(&pool(&[]), 17), Err(PipelineError::EmptyPool));
}

#[test]
fn select_on_a_pool_of_one_always_returns_it() {
    let p = pool(&["/out/only.jpg"]);
    for _ in 0..200 {
        assert_eq!(select(&p), Ok("/out/only.jpg".to_string()));
    }
    for draw in [0usize, 1, 2, 99, usize::MAX] {
        assert_eq!(select_at(&p, draw), Ok("/out/only.jpg".to_string()));
    }
}

#[test]
fn select_at_takes_the_draw_modulo_the_size() {
    let p = pool(&["a", "b", "c"]);
    assert_eq!(select_at(&p, 0), Ok("a".to_string()));
    assert_eq!(select_at(&p, 1), Ok("b".to_string()));
    assert_eq!(select_at(&p, 2), Ok("c".to_string()));
    assert_eq!(select_at(&p, 3), Ok("a".to_string()));
    assert_eq!(select_at(&p, 10), Ok("b".to_string()));
    assert_eq!(select_at(&p, usize::MAX), Ok(p[usize::MAX % 3].clone()));
}

#[test]
fn select_returns_a_member_of_the_pool() {
    let p = pool(&["a", "b", "c", "d", "e"]);
    for _ in 0..100 {
        let chosen = select(&p).unwrap();
        assert!(p.contains(&chosen));
    }
}

#[test]
fn select_reaches_every_member_over_many_draws() {
    let p = pool(&["a", "b", "c", "d"]);
    let mut seen = vec![0usize; p.len()];
    for _ in 0..4000 {
        let chosen = select(&p).unwrap();
        let i = p.iter().position(|x| *x == chosen).unwrap();
        seen[i] += 1;
    }
    for count in seen {
        assert!(count > 0);
    }
}

#[test]
fn select_draws_afresh_each_time() {
    let p: Vec<String> = (0..1000).map(|i| format!("/out/{}.jpg", i)).collect();
    let first = select(&p).unwrap();
    let mut differs = false;
    for _ in 0..200 {
        if select(&p).unwrap() != first {
            differs = true;
        }
    }
    assert!(differs);
}

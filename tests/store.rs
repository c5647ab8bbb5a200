use poke_me::job::{Poke, PokeError};
use poke_me::store::{add_poke, get_poke_by_name, list_pokes, remove_poke, toggle_poke_sound, JobTable};

fn names(v: &[Poke]) -> Vec<String> {
    v.iter().map(|p| p.name.clone()).collect()
}

fn table_with(jobs: &[(&str, &str)]) -> JobTable {
    let mut t = JobTable::new();
    for (n, c) in jobs {
        assert_eq!(add_poke(&mut t, n.to_string(), c.to_string(), None, false), Ok(()));
    }
    t
}

#[test]
fn new_job_with_valid_schedule() {
    let p = Poke::new("standup".to_string(), "0 0 10 * * 1-5".to_string(), Some("daily standup".to_string()), true).unwrap();
    assert_eq!(p.id, 0);
    assert_eq!(p.name, "standup");
    assert_eq!(p.cron, "0 0 10 * * 1-5");
    assert_eq!(p.detail.as_deref(), Some("daily standup"));
    assert!(p.sound_enabled);
    assert!(p.created > 1_600_000_000);
}

#[test]
fn new_job_with_invalid_schedule_is_refused() {
    for bad in ["not a cron", "0 9 * * *", "", "0 0 25 * * *", "* * * * * * * *"] {
        let r = Poke::new("x".to_string(), bad.to_string(), None, false);
        assert_eq!(r.err(), Some(PokeError::InvalidSchedule), "{}", bad);
    }
}

#[test]
fn created_at_keeps_the_given_time() {
    let p = Poke::created_at("a".to_string(), "0 0 9 * * *".to_string(), None, false, 1_700_000_000).unwrap();
    assert_eq!(p.created, 1_700_000_000);
    assert_eq!(p.detail, None);
}

#[test]
fn add_rejects_invalid_schedule_before_storing() {
    let mut t = JobTable::new();
    let r = add_poke(&mut t, "a".to_string(), "every morning".to_string(), None, false);
    assert_eq!(r, Err(PokeError::InvalidSchedule));
    assert_eq!(t.len(), 0);
}

#[test]
fn second_add_of_a_name_is_a_duplicate() {
    let mut t = JobTable::new();
    assert_eq!(add_poke(&mut t, "water-plants".to_string(), "0 0 9 * * *".to_string(), None, false), Ok(()));
    let r = add_poke(&mut t, "water-plants".to_string(), "0 0 18 * * *".to_string(), None, true);
    assert_eq!(r, Err(PokeError::DuplicateName));
    assert_eq!(t.len(), 1);
    assert_eq!(t.rows()[0].cron, "0 0 9 * * *");
}

#[test]
fn remove_unknown_name_is_not_found() {
    let mut t = table_with(&[("a", "0 0 9 * * *")]);
    assert_eq!(remove_poke(&mut t, "b"), Err(PokeError::NotFound));
    assert_eq!(t.len(), 1);
}

#[test]
fn remove_drops_only_that_job() {
    let mut t = table_with(&[("a", "0 0 9 * * *"), ("b", "0 0 10 * * *"), ("c", "0 0 11 * * *")]);
    assert_eq!(remove_poke(&mut t, "b"), Ok(()));
    assert_eq!(names(t.rows()), vec!["a", "c"]);
}

#[test]
fn toggle_flips_the_sound_flag() {
    let mut t = table_with(&[("a", "0 0 9 * * *")]);
    assert_eq!(toggle_poke_sound(&mut t, "a"), Ok(true));
    assert!(t.rows()[0].sound_enabled);
    assert_eq!(toggle_poke_sound(&mut t, "a"), Ok(false));
    assert!(!t.rows()[0].sound_enabled);
    assert_eq!(toggle_poke_sound(&mut t, "zzz"), Err(PokeError::NotFound));
}

#[test]
fn list_takes_the_head() {
    let t = table_with(&[("a", "0 0 9 * * *"), ("b", "0 0 10 * * *"), ("c", "0 0 11 * * *")]);
    assert_eq!(names(&list_pokes(&t, None)), vec!["a", "b", "c"]);
    assert_eq!(names(&list_pokes(&t, Some(2))), vec!["a", "b"]);
    assert_eq!(names(&list_pokes(&t, Some(0))), Vec::<String>::new());
    assert_eq!(names(&list_pokes(&t, Some(10))), vec!["a", "b", "c"]);
    assert_eq!(names(&list_pokes(&t, Some(-1))), vec!["a", "b", "c"]);
}

#[test]
fn get_by_exact_name() {
    let t = table_with(&[("water-plants", "0 0 9 * * *")]);
    assert_eq!(get_poke_by_name(&t, "water-plants").unwrap().cron, "0 0 9 * * *");
    assert_eq!(get_poke_by_name(&t, "water").err(), Some(PokeError::NotFound));
}

#[test]
fn from_rows_checks_names_and_schedules() {
    let row = |n: &str, c: &str| Poke { id: 1, name: n.to_string(), cron: c.to_string(), detail: None, sound_enabled: false, created: 0 };
    assert!(JobTable::from_rows(vec![row("a", "0 0 9 * * *"), row("b", "0 0 9 * * *")]).is_some());
    assert!(JobTable::from_rows(vec![row("a", "0 0 9 * * *"), row("a", "0 0 10 * * *")]).is_none());
    assert!(JobTable::from_rows(vec![row("a", "bad")]).is_none());
}

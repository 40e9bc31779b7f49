use nbody::body::{Color, Fix2};
use nbody::loader::{load_bodies, InitEntry, LoadError, Species};
use nbody::sim::SimState;

const WHITE: Color = Color { red: 255, green: 255, blue: 255 };

fn species(name: &[u8], mass: u64) -> Species {
    Species { name: name.to_vec(), mass, radius: 50_000_000, color: WHITE }
}

fn entry(name: &[u8], px: i64, py: i64, vx: i64, vy: i64) -> InitEntry {
    InitEntry { name: name.to_vec(), pos: Fix2 { x: px, y: py }, vel: Fix2 { x: vx, y: vy } }
}

const SOLAR: u64 = 1_000_000_000_000_000_000;
const EARTH_MASS: u64 = 3_003_000_000_000;

#[test]
fn load_places_anchor_at_origin() {
    let table = vec![species(b"sun", SOLAR), species(b"earth", EARTH_MASS)];
    let src = vec![entry(b"earth", 1_000_000_000, 0, 0, 10_000)];
    let anchor = b"sun".to_vec();
    let bodies = load_bodies(&table, &src, &anchor).unwrap();
    assert_eq!(bodies.len(), 2);
    assert_eq!(bodies[0].name, b"sun".to_vec());
    assert_eq!(bodies[0].pos, Fix2 { x: 0, y: 0 });
    assert_eq!(bodies[0].vel, Fix2 { x: 0, y: 0 });
    assert_eq!(bodies[0].mass, SOLAR);
}

#[test]
fn load_converts_daily_velocity_to_yearly() {
    let table = vec![species(b"sun", SOLAR), species(b"earth", EARTH_MASS)];
    let src = vec![entry(b"earth", 1_000_000_000, -2_000_000, 10_000, -10_000)];
    let anchor = b"sun".to_vec();
    let bodies = load_bodies(&table, &src, &anchor).unwrap();
    assert_eq!(bodies[1].pos, Fix2 { x: 1_000_000_000, y: -2_000_000 });
    // 10_000 per day times 365.2422 days per year, exactly.
    assert_eq!(bodies[1].vel, Fix2 { x: 3_652_422, y: -3_652_422 });
}

#[test]
fn load_keeps_table_order() {
    let table = vec![
        species(b"sun", SOLAR),
        species(b"venus", 2_448_000_000_000),
        species(b"earth", EARTH_MASS),
    ];
    // The source lists them the other way around; the table order wins.
    let src = vec![
        entry(b"earth", 1_000_000_000, 0, 0, 10_000),
        entry(b"venus", 723_000_000, 0, 0, 12_000),
    ];
    let anchor = b"sun".to_vec();
    let bodies = load_bodies(&table, &src, &anchor).unwrap();
    assert_eq!(bodies[0].name, b"sun".to_vec());
    assert_eq!(bodies[1].name, b"venus".to_vec());
    assert_eq!(bodies[2].name, b"earth".to_vec());
    assert_eq!(bodies[1].pos.x, 723_000_000);
}

#[test]
fn missing_body_fails_and_names_it() {
    let table = vec![species(b"sun", SOLAR), species(b"mars", 321_000_000_000)];
    let src = vec![entry(b"earth", 1_000_000_000, 0, 0, 10_000)];
    let anchor = b"sun".to_vec();
    match load_bodies(&table, &src, &anchor) {
        Err(LoadError::MissingBody(name)) => assert_eq!(name, b"mars".to_vec()),
        other => panic!("expected a missing-body failure, got {other:?}"),
    }
}

#[test]
fn duplicate_name_fails_and_names_it() {
    let table = vec![
        species(b"sun", SOLAR),
        species(b"earth", EARTH_MASS),
        species(b"earth", EARTH_MASS),
    ];
    let src = vec![entry(b"earth", 1_000_000_000, 0, 0, 10_000)];
    let anchor = b"sun".to_vec();
    match load_bodies(&table, &src, &anchor) {
        Err(LoadError::DuplicateName(name)) => assert_eq!(name, b"earth".to_vec()),
        other => panic!("expected a duplicate-name failure, got {other:?}"),
    }
}

#[test]
fn zero_mass_fails_at_load_time() {
    let table = vec![species(b"sun", SOLAR), species(b"dust", 0)];
    let src = vec![entry(b"dust", 1_000_000_000, 0, 0, 0)];
    let anchor = b"sun".to_vec();
    match load_bodies(&table, &src, &anchor) {
        Err(LoadError::MassOutOfRange(name)) => assert_eq!(name, b"dust".to_vec()),
        other => panic!("expected a mass failure, got {other:?}"),
    }
}

#[test]
fn out_of_range_position_fails_at_load_time() {
    let table = vec![species(b"sun", SOLAR), species(b"far", EARTH_MASS)];
    let src = vec![entry(b"far", 2_000_000_000_000_000, 0, 0, 0)];
    let anchor = b"sun".to_vec();
    match load_bodies(&table, &src, &anchor) {
        Err(LoadError::StateOutOfRange(name)) => assert_eq!(name, b"far".to_vec()),
        other => panic!("expected a state failure, got {other:?}"),
    }
}

#[test]
fn first_faulty_row_wins() {
    // Both a missing body and a later duplicate: the earlier row's
    // failure is the one reported.
    let table = vec![
        species(b"sun", SOLAR),
        species(b"mars", 321_000_000_000),
        species(b"sun", SOLAR),
    ];
    let src: Vec<InitEntry> = Vec::new();
    let anchor = b"sun".to_vec();
    match load_bodies(&table, &src, &anchor) {
        Err(LoadError::MissingBody(name)) => assert_eq!(name, b"mars".to_vec()),
        other => panic!("expected the missing-body failure first, got {other:?}"),
    }
}

#[test]
fn start_rejects_bad_constants() {
    let table = vec![species(b"sun", SOLAR)];
    let src: Vec<InitEntry> = Vec::new();
    let anchor = b"sun".to_vec();
    match SimState::start(&table, &src, &anchor, 0, 10_000_000) {
        Err(LoadError::BadConstants) => {},
        other => panic!("expected a constants failure, got {other:?}"),
    }
    match SimState::start(&table, &src, &anchor, 1_000_000_000, 0) {
        Err(LoadError::BadConstants) => {},
        other => panic!("expected a constants failure, got {other:?}"),
    }
}

#[test]
fn start_begins_unpaused_and_steps() {
    let table = vec![species(b"sun", SOLAR), species(b"earth", EARTH_MASS)];
    let src = vec![entry(b"earth", 1_000_000_000, 0, 0, 2_738)];
    let anchor = b"sun".to_vec();
    let mut sim = SimState::start(&table, &src, &anchor, 1_000_000_000, 10_000_000).unwrap();
    assert!(!sim.is_paused());
    assert_eq!(sim.body_count(), 2);
    let before = sim.bodies[1].pos;
    sim.advance();
    assert_ne!(sim.bodies[1].pos, before);
}

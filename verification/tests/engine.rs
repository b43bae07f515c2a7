//! End-to-end tests of the orbital propagation engine: loading, advancing,
//! querying, and the numeric behaviour of the solver and resolver.

use harsh_realm_sim::calendar::{civil_from_days, format_date, Date};
use harsh_realm_sim::game::GameState;
use harsh_realm_sim::kepler::solve;
use harsh_realm_sim::loader::{Column, LoadError};
use harsh_realm_sim::num::{SCALE, TAU_NANO};
use harsh_realm_sim::system::{load, SolarSystemManager};
use harsh_realm_sim::trig::{atan2_nano, cos_nano, sin_nano};

const HEADER: &str =
    "name,region,semi_major_axis_km,eccentricity,argument_of_periapsis,mean_anomaly_at_epoch,period_days\n";

fn small_system_csv() -> String {
    let mut csv = String::from(HEADER);
    csv.push_str("Sol,inner,,,,,\n");
    csv.push_str("Earth,inner,149598023,0.0167,0,0,365.25\n");
    csv.push_str("Mars,inner,227939366,0.0934,5.0004,0.3388,686.98\n");
    csv.push_str("Jupiter,outer,778479000,0.0489,4.7788,0.3439,4332.59\n");
    csv
}

fn epoch_2070() -> Date {
    Date { year: 2070, month: 1, day: 1 }
}

#[test]
fn load_csv_and_step() {
    let mut solar = SolarSystemManager::new(epoch_2070());
    solar
        .load_from_csv(small_system_csv().as_bytes())
        .expect("should load CSV");

    // basic sanity: at least one body loaded
    assert!(!solar.all_bodies().is_empty());

    // advance 30 days (one turn) and confirm date progression
    solar.advance(30_000);
    assert_eq!(
        solar.current_date(),
        Date { year: 2070, month: 1, day: 31 }
    );
}

#[test]
fn lookup_by_name() {
    let solar = load(small_system_csv().as_bytes(), epoch_2070()).unwrap();
    let earth = solar.body(b"Earth").expect("Earth should be present");
    assert_eq!(earth.name, b"Earth".to_vec());
    assert_eq!(earth.region, b"inner".to_vec());
    assert!(earth.orbital_state.is_some());
    let sol = solar.body(b"Sol").expect("Sol should be present");
    assert!(sol.orbital_state.is_none());
    assert!(solar.body(b"Vulcan").is_none());
}

#[test]
fn circular_orbit_radius_stays_at_semi_major_axis() {
    let mut csv = String::from(HEADER);
    csv.push_str("Halo,belt,100000000,0,0,0,500\n");
    let mut solar = load(csv.as_bytes(), epoch_2070()).unwrap();
    let a_mkm = 100_000_000_000i64;
    for _ in 0..7 {
        solar.advance(37_321);
        let body = solar.body(b"Halo").unwrap();
        let st = body.orbital_state.as_ref().unwrap();
        // the radius is exactly the semi-major axis for eccentricity zero
        assert_eq!(st.radius_mkm, a_mkm);
        // and the Cartesian magnitude matches it to well under a kilometre
        // per thousand kilometres
        let (x, y) = st.position();
        let mag = ((x as f64).powi(2) + (y as f64).powi(2)).sqrt();
        assert!((mag - a_mkm as f64).abs() < 1.0e-4 * a_mkm as f64);
    }
}

#[test]
fn orbital_closure_after_one_period() {
    let mut solar = load(small_system_csv().as_bytes(), epoch_2070()).unwrap();
    solar.advance(123_456);
    let before: Vec<(i64, i64)> = solar
        .all_bodies()
        .iter()
        .filter_map(|b| b.orbital_state.as_ref().map(|s| s.position()))
        .collect();
    // Earth's period is 365.25 days = 365250 milli-days
    solar.advance(365_250);
    let earth = solar.body(b"Earth").unwrap();
    let st = earth.orbital_state.as_ref().unwrap();
    // position is bit-for-bit identical one Earth period later
    assert_eq!(st.position(), before[0]);
}

#[test]
fn advancing_is_additive_in_elapsed_time() {
    let csv = small_system_csv();
    let mut one = load(csv.as_bytes(), epoch_2070()).unwrap();
    let mut two = load(csv.as_bytes(), epoch_2070()).unwrap();
    one.advance(10_500);
    one.advance(20_250);
    two.advance(30_750);
    assert_eq!(one.current_date(), two.current_date());
    let a = one.all_bodies();
    let b = two.all_bodies();
    assert_eq!(a.len(), b.len());
    for i in 0..a.len() {
        assert_eq!(a[i].name, b[i].name);
        assert_eq!(a[i].orbital_state, b[i].orbital_state);
    }
}

#[test]
fn date_moves_by_exactly_the_whole_days_advanced() {
    let mut solar = SolarSystemManager::new(epoch_2070());
    let day0 = solar.current_day_number();
    solar.advance(17_000);
    assert_eq!(solar.current_day_number(), day0 + 17);
    // a pending fraction of a day does not disturb whole-day steps
    solar.advance(500);
    let day17half = solar.current_day_number();
    solar.advance(3_000);
    assert_eq!(solar.current_day_number(), day17half + 3);
}

#[test]
fn kepler_solver_converges_across_the_eccentricity_range() {
    let mut worst = 0.0f64;
    for e_step in 0..10 {
        let e_nano: i64 = e_step * 90_000_000; // 0.0 to 0.81
        for m_step in 0..97 {
            let m_nano: i64 = (TAU_NANO - 1) * m_step / 97;
            let out = solve(e_nano, m_nano);
            assert!(out.converged);
            let ea = out.eccentric_anomaly_nano as f64 / 1.0e9;
            let e = e_nano as f64 / 1.0e9;
            let m = m_nano as f64 / 1.0e9;
            let resid = (ea - e * ea.sin() - m).abs();
            if resid > worst {
                worst = resid;
            }
        }
    }
    // e = 0.9 exactly, the top of the advertised range
    for m_step in 0..97 {
        let m_nano: i64 = (TAU_NANO - 1) * m_step / 97;
        let out = solve(900_000_000, m_nano);
        assert!(out.converged);
        let ea = out.eccentric_anomaly_nano as f64 / 1.0e9;
        let m = m_nano as f64 / 1.0e9;
        let resid = (ea - 0.9 * ea.sin() - m).abs();
        if resid > worst {
            worst = resid;
        }
    }
    assert!(worst < 1.0e-6, "worst residual {}", worst);
}

#[test]
fn earth_scenario_round_trip_and_quarter_period() {
    // Earth: a = 149,598,023 km, e = 0.0167, period = 365.25 days, mean
    // anomaly 0 at the epoch.
    let mut csv = String::from(HEADER);
    csv.push_str("Earth,inner,149598023,0.0167,0,0,365.25\n");

    // after one full period the resolved angle returns to its epoch value
    let mut solar = load(csv.as_bytes(), epoch_2070()).unwrap();
    let at_epoch = solar
        .body(b"Earth")
        .unwrap()
        .orbital_state
        .as_ref()
        .unwrap()
        .angle_microdegrees();
    solar.advance(365_250);
    let after_period = solar
        .body(b"Earth")
        .unwrap()
        .orbital_state
        .as_ref()
        .unwrap()
        .angle_microdegrees();
    let diff = (after_period as i64 - at_epoch as i64).abs();
    let wrapped = diff.min(360_000_000 - diff);
    assert!(wrapped < 1_000, "angle drifted {} microdegrees", wrapped);

    // a quarter period later the body sits near (0, +a)
    let mut quarter = load(csv.as_bytes(), epoch_2070()).unwrap();
    quarter.advance(91_310);
    let st = quarter.body(b"Earth").unwrap().orbital_state.clone().unwrap();
    let (x, y) = st.position();
    let a = 149_598_023_000.0f64;
    assert!((x as f64).abs() < 0.04 * a, "x = {}", x);
    assert!((y as f64 - a).abs() < 0.01 * a, "y = {}", y);
}

#[test]
fn duplicate_name_rejects_whole_table() {
    let mut solar = SolarSystemManager::new(epoch_2070());
    solar
        .load_from_csv(small_system_csv().as_bytes())
        .unwrap();
    let loaded = solar.all_bodies().len();

    let mut csv = String::from(HEADER);
    csv.push_str("Earth,inner,149598023,0.0167,0,0,365.25\n");
    csv.push_str("Mars,inner,227939366,0.0934,5.0004,0.3388,686.98\n");
    csv.push_str("Earth,outer,778479000,0.0489,4.7788,0.3439,4332.59\n");
    let err = solar.load_from_csv(csv.as_bytes()).unwrap_err();
    assert_eq!(err, LoadError::DuplicateName { row: 3 });
    // the failed load left the earlier registry untouched
    assert_eq!(solar.all_bodies().len(), loaded);
    assert!(solar.body(b"Jupiter").is_some());
}

#[test]
fn loader_reports_the_failing_row_and_column() {
    let epoch = epoch_2070();
    let case = |rows: &str| -> Result<SolarSystemManager, LoadError> {
        let mut csv = String::from(HEADER);
        csv.push_str(rows);
        load(csv.as_bytes(), epoch)
    };
    assert_eq!(
        case("Earth,inner,149598023,0.0167,0,0\n").unwrap_err(),
        LoadError::WrongColumnCount { row: 1 }
    );
    assert_eq!(
        case(",inner,149598023,0.0167,0,0,365.25\n").unwrap_err(),
        LoadError::MissingField { row: 1, column: Column::Name }
    );
    assert_eq!(
        case("Earth,inner,,0.0167,0,0,365.25\n").unwrap_err(),
        LoadError::MissingField { row: 1, column: Column::SemiMajorAxis }
    );
    assert_eq!(
        case("Earth,inner,149598023,0.0167,,0,365.25\n").unwrap_err(),
        LoadError::MissingField { row: 1, column: Column::ArgumentOfPeriapsis }
    );
    assert_eq!(
        case("Earth,inner,oops,0.0167,0,0,365.25\n").unwrap_err(),
        LoadError::MalformedNumber { row: 1, column: Column::SemiMajorAxis }
    );
    assert_eq!(
        case("Earth,inner,149598023,0.0167,0,0,365.25.5\n").unwrap_err(),
        LoadError::MalformedNumber { row: 1, column: Column::PeriodDays }
    );
    assert_eq!(
        case("Earth,inner,149598023,1.5,0,0,365.25\n").unwrap_err(),
        LoadError::InvalidParameter { row: 1, column: Column::Eccentricity }
    );
    assert_eq!(
        case("Earth,inner,-5,0.0167,0,0,365.25\n").unwrap_err(),
        LoadError::InvalidParameter { row: 1, column: Column::SemiMajorAxis }
    );
    assert_eq!(
        case("Earth,inner,149598023,0.0167,0,0,0\n").unwrap_err(),
        LoadError::InvalidParameter { row: 1, column: Column::PeriodDays }
    );
    // the second row is the one named when the first is fine
    assert_eq!(
        case("Earth,inner,149598023,0.0167,0,0,365.25\nMars,inner,x,0.09,0,0,686.98\n")
            .unwrap_err(),
        LoadError::MalformedNumber { row: 2, column: Column::SemiMajorAxis }
    );
}

#[test]
fn empty_region_tag_is_accepted() {
    let mut csv = String::from(HEADER);
    csv.push_str("Drifter,,100000000,0.5,0,0,1000\n");
    let solar = load(csv.as_bytes(), epoch_2070()).unwrap();
    let body = solar.body(b"Drifter").unwrap();
    assert_eq!(body.region, Vec::<u8>::new());
}

#[test]
fn extra_columns_are_rejected() {
    let mut csv = String::from(HEADER);
    csv.push_str("Earth,inner,149598023,0.0167,0,0,365.25,42\n");
    let err = load(csv.as_bytes(), epoch_2070()).unwrap_err();
    assert_eq!(err, LoadError::WrongColumnCount { row: 1 });
}

#[test]
fn negative_angles_are_normalized_on_load() {
    let mut csv = String::from(HEADER);
    csv.push_str("Probe,belt,100000000,0.1,-1.5,-0.25,500\n");
    let solar = load(csv.as_bytes(), epoch_2070()).unwrap();
    let st = solar.body(b"Probe").unwrap().orbital_state.clone().unwrap();
    let omega = st.parameters.arg_periapsis_nano;
    assert!(0 <= omega && omega < TAU_NANO);
    assert_eq!(omega, TAU_NANO - 1_500_000_000);
    let m0 = st.parameters.mean_anomaly_epoch_nano;
    assert_eq!(m0, TAU_NANO - 250_000_000);
}

#[test]
fn turns_totalling_whole_periods_return_to_the_start() {
    // a 60-day orbit: four 30-day turns are exactly two whole periods
    let mut csv = String::from(HEADER);
    csv.push_str("Cycler,belt,100000000,0.3,1,0.5,60\n");
    let mut game = GameState::new();
    game.load_solar_system_data(csv.as_bytes()).unwrap();
    let q0 = game
        .simulation
        .solar_system
        .body(b"Cycler")
        .unwrap()
        .orbital_state
        .clone()
        .unwrap()
        .position();
    for _ in 0..4 {
        game.process_turn();
    }
    let q = game
        .simulation
        .solar_system
        .body(b"Cycler")
        .unwrap()
        .orbital_state
        .clone()
        .unwrap()
        .position();
    // closure holds to the bit, well inside solver tolerance
    assert_eq!(q, q0);
    assert_eq!(game.get_formatted_date(), "2070-05-01");
}

#[test]
fn split_turns_match_one_combined_advance() {
    let csv = small_system_csv();
    let mut game = GameState::new();
    game.load_solar_system_data(csv.as_bytes()).unwrap();
    for _ in 0..3 {
        game.process_turn();
    }
    let mut solar = load(csv.as_bytes(), epoch_2070()).unwrap();
    solar.advance(90_000);
    let a = game.simulation.solar_system.all_bodies();
    let b = solar.all_bodies();
    assert_eq!(a.len(), b.len());
    for i in 0..a.len() {
        assert_eq!(a[i].name, b[i].name);
        assert_eq!(a[i].orbital_state, b[i].orbital_state);
    }
    assert_eq!(
        game.simulation.solar_system.current_date(),
        solar.current_date()
    );
}

#[test]
fn game_state_runs_turns_of_thirty_days() {
    let mut game = GameState::new();
    game.load_solar_system_data(small_system_csv().as_bytes())
        .unwrap();
    assert_eq!(game.get_formatted_date(), "2070-01-01");
    game.process_turn();
    assert_eq!(game.simulation.turn, 1);
    assert_eq!(game.get_formatted_date(), "2070-01-31");
    game.process_turn();
    assert_eq!(game.get_formatted_date(), "2070-03-02");
}

#[test]
fn calendar_converts_both_ways() {
    let d = Date { year: 2070, month: 1, day: 1 };
    let n = d.day_number();
    assert_eq!(civil_from_days(n), d);
    assert_eq!(
        civil_from_days(n + 59),
        Date { year: 2070, month: 3, day: 1 }
    );
    // 2072 is a leap year
    let feb = Date { year: 2072, month: 2, day: 28 };
    assert_eq!(
        civil_from_days(feb.day_number() + 1),
        Date { year: 2072, month: 2, day: 29 }
    );
    // 2100 is not
    let feb = Date { year: 2100, month: 2, day: 28 };
    assert_eq!(
        civil_from_days(feb.day_number() + 1),
        Date { year: 2100, month: 3, day: 1 }
    );
    assert_eq!(format_date(&Date { year: 987, month: 11, day: 5 }), "0987-11-05");
}

#[test]
fn fixed_point_trig_matches_the_real_functions() {
    let mut worst = 0.0f64;
    for i in 0..1000 {
        let x: i64 = (TAU_NANO - 1) * i / 1000;
        let xf = x as f64 / 1.0e9;
        let ds = (sin_nano(x) as f64 / 1.0e9 - xf.sin()).abs();
        let dc = (cos_nano(x) as f64 / 1.0e9 - xf.cos()).abs();
        worst = worst.max(ds).max(dc);
    }
    assert!(worst < 1.0e-7, "worst trig error {}", worst);

    for &(y, x) in &[
        (0i64, 1_000_000_000i64),
        (1_000_000_000, 0),
        (0, -1_000_000_000),
        (-1_000_000_000, 0),
        (707_106_781, 707_106_781),
        (-3, 2_000_000_000),
    ] {
        let a = atan2_nano(y, x) as f64 / 1.0e9;
        let expect = (y as f64).atan2(x as f64).rem_euclid(std::f64::consts::TAU);
        let d = (a - expect).abs();
        let wrapped = d.min(std::f64::consts::TAU - d);
        assert!(wrapped < 1.0e-6, "atan2({}, {}) = {}", y, x, a);
    }
}

#[test]
fn solver_tolerance_flag_is_reported_per_state() {
    let solar = load(small_system_csv().as_bytes(), epoch_2070()).unwrap();
    let st = solar.body(b"Earth").unwrap().orbital_state.clone().unwrap();
    assert!(st.solver_within_tolerance());
    assert_eq!(st.mean_anomaly_nano, 0);
    assert_eq!(st.eccentric_anomaly_nano, 0);
    assert_eq!(st.elapsed_millidays, 0);
    let scale_f = SCALE as f64;
    assert!(scale_f > 0.0);
}

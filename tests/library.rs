use track_notes::{
    check_username, display_amount, like_pattern, login, login_outcome, new_user_with_salt,
    parse_food_file, parse_i32, parse_row, parse_scaled, plan_food, prepare_sign_up,
    scale_amount, search_rows, select_track, sign_up_result, track_table, user_from_hash, Food, FoodPlan,
    ImportError, LoginOutcome, RowProblem, SessionData, SignUpError, StoreError, Track, User,
    INVALID_LOGIN, MEAL_BUILDER_PATH,
};

fn chars(s: &str) -> Vec<char> {
    s.chars().collect()
}

fn food(id: i32, name: &str, calories: i32, protein: i32) -> Food {
    Food { id, name: name.to_string(), calories, protein }
}

fn track(name: &str, image: &str) -> Track {
    Track { name: name.to_string(), image: image.to_string() }
}

#[test]
fn short_username_is_refused_before_hashing() {
    assert_eq!(check_username("ab"), Err(SignUpError::UsernameTooShort));
    assert_eq!(check_username(""), Err(SignUpError::UsernameTooShort));
    assert_eq!(check_username("abc"), Ok(()));
    match prepare_sign_up("ab", "secret") {
        Err(e) => {
            assert_eq!(e, SignUpError::UsernameTooShort);
            assert_eq!(e.message(), "Username has to be at least 3 characters long");
        }
        Ok(_) => panic!("a two-letter username was accepted"),
    }
}

#[test]
fn username_length_counts_characters() {
    // two characters, four bytes
    assert_eq!(check_username("äö"), Err(SignUpError::UsernameTooShort));
    assert_eq!(check_username("äöü"), Ok(()));
}

#[test]
fn duplicate_username_is_reported() {
    let r = sign_up_result(Err(StoreError::UniqueViolation));
    assert_eq!(r, Err(SignUpError::UsernameTaken));
    assert_eq!(r.unwrap_err().message(), "Username already exists");
    assert_eq!(sign_up_result(Err(StoreError::OtherDatabase)), Err(SignUpError::Database));
    assert_eq!(SignUpError::Database.message(), "An database error occured");
    assert_eq!(sign_up_result(Err(StoreError::Other)), Err(SignUpError::Unknown));
    assert_eq!(SignUpError::Unknown.message(), "An unknown error occured");
    assert_eq!(sign_up_result(Ok(())), Ok(()));
}

#[test]
fn sign_up_hashes_and_login_checks() {
    let u = prepare_sign_up("alice", "secret").expect("sign-up failed");
    assert_eq!(u.username, "alice");
    assert_ne!(u.password, "secret");
    assert!(u.password.starts_with("$argon2"));
    let stored = User { id: 7, username: u.username.clone(), password: u.password.clone() };
    assert_eq!(
        login(Some(&stored), "secret"),
        LoginOutcome::LoggedIn(SessionData { authenticated: true, user_id: 7 })
    );
    assert_eq!(login(Some(&stored), "wrong"), LoginOutcome::Rejected);
}

#[test]
fn hashing_with_a_given_salt_is_repeatable() {
    let a = new_user_with_salt("alice", "secret", "abcdefghijklmnop").unwrap();
    let b = new_user_with_salt("alice", "secret", "abcdefghijklmnop").unwrap();
    assert_eq!(a.password, b.password);
    let c = new_user_with_salt("alice", "secret", "ponmlkjihgfedcba").unwrap();
    assert_ne!(a.password, c.password);
    // too short to be a salt
    assert!(matches!(new_user_with_salt("alice", "secret", "ab"), Err(SignUpError::Unknown)));
    assert!(matches!(
        new_user_with_salt("al", "secret", "abcdefghijklmnop"),
        Err(SignUpError::UsernameTooShort)
    ));
}

#[test]
fn user_from_hash_cases() {
    let u = user_from_hash("bob", Some("h".to_string())).unwrap();
    assert_eq!(u.username, "bob");
    assert_eq!(u.password, "h");
    assert!(matches!(user_from_hash("bob", None), Err(SignUpError::Unknown)));
    assert!(matches!(user_from_hash("bo", Some("h".to_string())), Err(SignUpError::UsernameTooShort)));
}

#[test]
fn failed_logins_look_alike() {
    let stored = User { id: 3, username: "carol".to_string(), password: String::new() };
    let unknown = login(None, "secret");
    let wrong = login(Some(&stored), "secret");
    assert_eq!(unknown, LoginOutcome::Rejected);
    assert_eq!(unknown, wrong);
    assert_eq!(login_outcome(Some(&stored), false), login_outcome(None, true));
    assert_eq!(
        login_outcome(Some(&stored), true),
        LoginOutcome::LoggedIn(SessionData::new(true, 3))
    );
    assert_eq!(INVALID_LOGIN, "Invalid username or password");
    assert_eq!(MEAL_BUILDER_PATH, "/meal_builder");
}

#[test]
fn session_guard() {
    assert_eq!(
        SessionData::from_session(Some("true"), Some("5")),
        Some(SessionData { authenticated: true, user_id: 5 })
    );
    assert_eq!(SessionData::from_session(Some("true"), Some("-7")).unwrap().user_id, -7);
    assert_eq!(SessionData::from_session(Some("false"), Some("5")), None);
    assert_eq!(SessionData::from_session(Some("true"), None), None);
    assert_eq!(SessionData::from_session(None, Some("5")), None);
    assert_eq!(SessionData::from_session(Some("true"), Some("x")), None);
    assert_eq!(SessionData::from_session(Some("True"), Some("5")), None);
}

#[test]
fn food_creation_without_session_redirects() {
    assert!(matches!(plan_food(None, "Apple".to_string(), 52, 3), FoodPlan::NoSession));
}

#[test]
fn food_creation_scales_by_one_hundred() {
    let s = Some(SessionData::new(true, 1));
    match plan_food(s, "Apple".to_string(), 52, 3) {
        FoodPlan::Insert(f) => {
            assert_eq!(f.name, "Apple");
            assert_eq!(f.calories, 5200);
            assert_eq!(f.protein, 300);
            assert_eq!(display_amount(f.calories), 52);
            assert_eq!(display_amount(f.protein), 3);
        }
        _ => panic!("no insert"),
    }
    assert!(matches!(plan_food(s, "x".to_string(), -1, 3), FoodPlan::Invalid));
    assert!(matches!(plan_food(s, "x".to_string(), 1, 21474837), FoodPlan::Invalid));
    assert!(matches!(plan_food(s, "x".to_string(), 21474836, 0), FoodPlan::Insert(_)));
}

#[test]
fn amounts_scale_and_show() {
    assert_eq!(scale_amount(52), Some(5200));
    assert_eq!(scale_amount(0), Some(0));
    assert_eq!(scale_amount(-1), None);
    assert_eq!(scale_amount(21474836), Some(2147483600));
    assert_eq!(scale_amount(21474837), None);
    assert_eq!(display_amount(5299), 52);
    assert_eq!(display_amount(99), 0);
    assert_eq!(display_amount(-150), -1);
    assert_eq!(display_amount(i32::MIN), -21474836);
}

#[test]
fn prefix_search_is_exact() {
    let stored = vec![
        food(1, "Cheese", 40200, 2500),
        food(2, "chicken", 23900, 2700),
        food(3, "Cherry", 5000, 100),
        food(4, "Apple", 5200, 30),
        food(5, "Ch", 100, 200),
    ];
    let rows = search_rows(&stored, "Ch");
    let names: Vec<&str> = rows.iter().map(|r| r.name.as_str()).collect();
    assert_eq!(names, vec!["Cheese", "Cherry", "Ch"]);
    assert_eq!(rows[0].calories, 402);
    assert_eq!(rows[0].protein, 25);
    assert_eq!(rows[1].protein, 1);
    assert!(search_rows(&stored, "Zz").is_empty());
    assert!(search_rows(&vec![], "Ch").is_empty());
    assert_eq!(search_rows(&stored, "").len(), 5);
    assert_eq!(like_pattern("Ch"), "Ch%");
    assert_eq!(like_pattern(""), "%");
}

#[test]
fn unknown_track_gives_blank_panel() {
    let tracks = vec![track("Monaco", "/tracks/monaco.svg"), track("Spain", "/tracks/spain.svg")];
    assert_eq!(select_track(&tracks, "Nowhere"), (String::new(), String::new()));
    assert_eq!(
        select_track(&tracks, "Spain"),
        ("Spain".to_string(), "/tracks/spain.svg".to_string())
    );
    let twice = vec![track("Monaco", "/a.svg"), track("Monaco", "/b.svg")];
    assert_eq!(select_track(&twice, "Monaco").1, "/b.svg");
}

#[test]
fn integers_parse() {
    assert_eq!(parse_i32(&chars("42")), Some(42));
    assert_eq!(parse_i32(&chars("+7")), Some(7));
    assert_eq!(parse_i32(&chars("-2147483648")), Some(i32::MIN));
    assert_eq!(parse_i32(&chars("2147483647")), Some(i32::MAX));
    assert_eq!(parse_i32(&chars("2147483648")), None);
    assert_eq!(parse_i32(&chars("-")), None);
    assert_eq!(parse_i32(&chars("")), None);
    assert_eq!(parse_i32(&chars("4a")), None);
}

#[test]
fn decimals_parse_in_hundredths() {
    assert_eq!(parse_scaled(&chars("52")), Some(5200));
    assert_eq!(parse_scaled(&chars("52.3")), Some(5230));
    assert_eq!(parse_scaled(&chars("0.299")), Some(29));
    assert_eq!(parse_scaled(&chars(".5")), Some(50));
    assert_eq!(parse_scaled(&chars("5.")), Some(500));
    assert_eq!(parse_scaled(&chars("21474836.47")), Some(i32::MAX));
    assert_eq!(parse_scaled(&chars("21474836.48")), None);
    assert_eq!(parse_scaled(&chars("")), None);
    assert_eq!(parse_scaled(&chars(".")), None);
    assert_eq!(parse_scaled(&chars("abc")), None);
    assert_eq!(parse_scaled(&chars("-1")), None);
    assert_eq!(parse_scaled(&chars("1.2.3")), None);
}

#[test]
fn import_row_cells() {
    let f = parse_row(&chars("\"Apple\";x;y; 52.0 ;z;w;0.3")).unwrap();
    assert_eq!(f.name, "Apple");
    assert_eq!(f.calories, 5200);
    assert_eq!(f.protein, 30);
    assert!(matches!(parse_row(&chars("a;b;c")), Err(RowProblem::MissingCells)));
    assert!(matches!(parse_row(&chars("a;b;c;d;e;f;1")), Err(RowProblem::BadCalories)));
    assert!(matches!(parse_row(&chars("a;b;c;1;e;f;g")), Err(RowProblem::BadProtein)));
}

#[test]
fn importer_reads_a_file() {
    let text = "h1\nh2\nh3\n\"Apple\";;;52;;;0.3\r\n\"Rice\";;;130;;;2.7\n";
    let foods = parse_food_file(text).unwrap();
    assert_eq!(foods.len(), 2);
    assert_eq!(foods[0].name, "Apple");
    assert_eq!(foods[0].calories, 5200);
    assert_eq!(foods[0].protein, 30);
    assert_eq!(foods[1].name, "Rice");
    assert_eq!(foods[1].calories, 13000);
    assert_eq!(foods[1].protein, 270);
    assert_eq!(parse_food_file("h1\nh2\nh3\n").unwrap().len(), 0);
    assert_eq!(parse_food_file("").unwrap().len(), 0);
}

#[test]
fn importer_aborts_on_bad_first_row() {
    let text = "h1\nh2\nh3\n\"Apple\";;;abc;;;0.3\n\"Rice\";;;130;;;2.7\n";
    assert_eq!(
        parse_food_file(text).unwrap_err(),
        ImportError { row: 0, problem: RowProblem::BadCalories }
    );
    let late = "h1\nh2\nh3\n\"Apple\";;;52;;;0.3\n\"Rice\";;;130;;\n";
    assert_eq!(
        parse_food_file(late).unwrap_err(),
        ImportError { row: 1, problem: RowProblem::MissingCells }
    );
}

#[test]
fn track_table_lists_every_track() {
    let tracks = track_table();
    assert_eq!(tracks.len(), 22);
    assert_eq!(tracks[0].name, "Abu Dhabi");
    assert_eq!(tracks[0].image, "/tracks/abudhabi.svg");
    assert_eq!(tracks[10].name, "Great Britain");
    assert_eq!(tracks[10].image, "/tracks/greatbritain.svg");
    assert_eq!(tracks[21].name, "Vietnam");
    assert_eq!(
        select_track(&tracks, "Monaco"),
        ("Monaco".to_string(), "/tracks/monaco.svg".to_string())
    );
    assert_eq!(select_track(&tracks, "Atlantis"), (String::new(), String::new()));
}

#[test]
fn sign_up_with_drawn_salt_then_login() {
    let u = new_user_with_salt("dave", "hunter2", "A1b2C3d4E5f6G7h8").unwrap();
    let stored = User { id: 11, username: u.username, password: u.password };
    assert_eq!(
        login(Some(&stored), "hunter2"),
        LoginOutcome::LoggedIn(SessionData { authenticated: true, user_id: 11 })
    );
    assert_eq!(login(Some(&stored), "hunter3"), LoginOutcome::Rejected);
}
